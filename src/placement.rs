use vstd::prelude::*;

verus! {

/// Asks which node holds a shard of `kind` for the index `index`.
pub struct PlacementRequest {
    pub index: String,
    pub kind: i32,
}

pub struct PlacementReply {
    pub node: String,
    pub kind: i32,
}

/// The record the key-value store keeps for an index: the shard-owning
/// nodes, by id.
pub struct NodeData {
    pub primaries: Vec<String>,
}

/// What a read of the key-value store gave.
pub enum KvRead {
    Unavailable,
    NoSuchIndex,
    Malformed,
    Found(NodeData),
}

/// The status a failed placement answers with.
#[derive(PartialEq, Eq, Structural, Clone, Copy)]
pub enum Code {
    NotFound,
    Internal,
}

pub struct PlacementError {
    pub code: Code,
    pub message: String,
}

/// The placement service. Its store is read by the caller, which hands the
/// read over; the choice is made here.
pub struct Place {}

impl Place {
    pub fn new() -> (r: Place) {
        Place {  }
    }

    /// The node for `req`: the last primary of the index's record.
    pub fn determine_placement(&self, req: &PlacementRequest, read: KvRead) -> (r: Result<
        PlacementReply,
        PlacementError,
    >)
        ensures
            match read {
                KvRead::Unavailable => r matches Err(e) && e.code == Code::Internal,
                KvRead::NoSuchIndex => r matches Err(e) && e.code == Code::NotFound,
                KvRead::Malformed => r matches Err(e) && e.code == Code::Internal,
                KvRead::Found(d) => if d.primaries@.len() == 0 {
                    r matches Err(e) && e.code == Code::Internal
                } else {
                    r matches Ok(p) && p.node == d.primaries@.last() && p.kind == req.kind
                },
            },
    {
        match read {
            KvRead::Unavailable => Err(
                PlacementError {
                    code: Code::Internal,
                    message: String::from_str("key-value store unavailable"),
                },
            ),
            KvRead::NoSuchIndex => Err(
                PlacementError { code: Code::NotFound, message: req.index.clone() },
            ),
            KvRead::Malformed => Err(
                PlacementError { code: Code::Internal, message: String::from_str("malformed node record") },
            ),
            KvRead::Found(d) => {
                let n = d.primaries.len();
                if n == 0 {
                    Err(
                        PlacementError {
                            code: Code::Internal,
                            message: String::from_str("node record has no primaries"),
                        },
                    )
                } else {
                    Ok(PlacementReply { node: d.primaries[n - 1].clone(), kind: req.kind })
                }
            },
        }
    }
}

} // verus!
