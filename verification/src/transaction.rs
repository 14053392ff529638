//! Transactions and their canonical bytes.

use vstd::prelude::*;
use crate::address::Address;

verus! {

/// The bincode encoding of a transaction, given by the fields of its inputs
/// and of its outputs; `None` where bincode reports an error.
pub uninterp spec fn bincode_encoding(
    transaction: (Seq<(Seq<u8>, u32)>, Seq<(Seq<u8>, Seq<u8>)>),
) -> Option<Seq<u8>>;

/// A reference to the output that an input spends.
#[derive(Clone, Copy, Debug, PartialEq, Eq)]
pub struct OutPoint {
    pub txid: [u8; 32],
    pub vout: u32,
}

impl View for OutPoint {
    type V = (Seq<u8>, u32);

    open spec fn view(&self) -> (Seq<u8>, u32) {
        (self.txid@, self.vout)
    }
}

/// An output: its owner and its content, which is opaque here.
#[derive(Clone, Debug, PartialEq, Eq)]
pub struct Output {
    pub address: Address,
    pub content: Vec<u8>,
}

impl View for Output {
    type V = (Seq<u8>, Seq<u8>);

    open spec fn view(&self) -> (Seq<u8>, Seq<u8>) {
        (self.address@, self.content@)
    }
}

/// A transaction without its authorizations.
#[derive(Clone, Debug, PartialEq, Eq)]
pub struct Transaction {
    pub inputs: Vec<OutPoint>,
    pub outputs: Vec<Output>,
}

impl View for Transaction {
    type V = (Seq<(Seq<u8>, u32)>, Seq<(Seq<u8>, Seq<u8>)>);

    open spec fn view(&self) -> Self::V {
        (
            self.inputs@.map_values(|input: OutPoint| input@),
            self.outputs@.map_values(|output: Output| output@),
        )
    }
}

/// Calls `bincode::serialize` on the pair of the inputs and the outputs, each
/// item given as the tuple of its fields. The contract names the encoding and
/// claims that the bytes returned are the encoding of those fields, and that
/// an error is returned where there is none.
#[verifier::external_body]
fn encode(inputs: &Vec<(&[u8; 32], u32)>, outputs: &Vec<(&[u8; 32], &Vec<u8>)>) -> (encoded: Result<
    Vec<u8>,
    bincode::Error,
>)
    ensures
        bincode_encoding(
            (
                inputs@.map_values(|input: (&[u8; 32], u32)| (input.0@, input.1)),
                outputs@.map_values(|output: (&[u8; 32], &Vec<u8>)| (output.0@, output.1@)),
            ),
        ) == match encoded {
            Ok(bytes) => Some(bytes@),
            Err(_) => None,
        },
{
    bincode::serialize(&(inputs, outputs))
}

impl Transaction {
    /// Whether the transaction has canonical bytes.
    pub open spec fn is_encodable(self) -> bool {
        bincode_encoding(self@) is Some
    }

    /// The canonical bytes: the message that every authorization of the
    /// transaction signs.
    pub open spec fn message(self) -> Seq<u8> {
        bincode_encoding(self@)->0
    }

    /// The canonical bytes of the transaction.
    pub fn serialize(&self) -> (encoded: Result<Vec<u8>, bincode::Error>)
        ensures
            self.is_encodable() == (encoded is Ok),
            encoded matches Ok(bytes) ==> bytes@ == self.message(),
    {
        let mut inputs: Vec<(&[u8; 32], u32)> = Vec::with_capacity(self.inputs.len());
        let mut i: usize = 0;
        while i < self.inputs.len()
            invariant
                i <= self.inputs@.len(),
                inputs@.len() == i,
                forall|j: int|
                    0 <= j < i ==> ((#[trigger] inputs@[j]).0@, inputs@[j].1) == self.inputs@[j]@,
            decreases self.inputs@.len() - i,
        {
            inputs.push((&self.inputs[i].txid, self.inputs[i].vout));
            i += 1;
        }
        let mut outputs: Vec<(&[u8; 32], &Vec<u8>)> = Vec::with_capacity(self.outputs.len());
        let mut o: usize = 0;
        while o < self.outputs.len()
            invariant
                o <= self.outputs@.len(),
                outputs@.len() == o,
                forall|j: int|
                    0 <= j < o ==> ((#[trigger] outputs@[j]).0@, outputs@[j].1@)
                        == self.outputs@[j]@,
            decreases self.outputs@.len() - o,
        {
            outputs.push((&self.outputs[o].address.bytes, &self.outputs[o].content));
            o += 1;
        }
        proof {
            assert(inputs@.map_values(|input: (&[u8; 32], u32)| (input.0@, input.1)) =~= self@.0);
            assert(outputs@.map_values(|output: (&[u8; 32], &Vec<u8>)| (output.0@, output.1@))
                =~= self@.1);
        }
        encode(&inputs, &outputs)
    }
}

} // verus!
