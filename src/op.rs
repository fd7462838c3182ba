use vstd::prelude::*;

verus! {

/// The kind of operation a request performs on a key, and the kind a hook
/// is triggered by.
#[derive(PartialEq, Eq, Structural, Debug, Clone, Copy)]
pub enum OpType {
    Get,
    Put,
    Del,
}

/// The canonical lowercase token of each operation kind.
pub open spec fn op_token(op: OpType) -> Seq<char> {
    match op {
        OpType::Get => seq!['g', 'e', 't'],
        OpType::Put => seq!['s', 'e', 't'],
        OpType::Del => seq!['d', 'e', 'l'],
    }
}

/// The operation kind whose token is `s`, if there is one.
pub open spec fn op_of_token(s: Seq<char>) -> Option<OpType> {
    if s == op_token(OpType::Get) {
        Some(OpType::Get)
    } else if s == op_token(OpType::Put) {
        Some(OpType::Put)
    } else if s == op_token(OpType::Del) {
        Some(OpType::Del)
    } else {
        None
    }
}

/// A token that names no operation kind.
#[derive(PartialEq, Eq, Structural, Debug, Clone, Copy)]
pub struct ParseOpError;

impl OpType {
    /// The token of this operation kind: `get`, `set` or `del`.
    pub fn as_str(&self) -> (r: &'static str)
        ensures
            r@ == op_token(*self),
    {
        match self {
            OpType::Get => {
                proof {
                    reveal_strlit("get");
                    assert("get"@ =~= op_token(OpType::Get));
                }
                "get"
            },
            OpType::Put => {
                proof {
                    reveal_strlit("set");
                    assert("set"@ =~= op_token(OpType::Put));
                }
                "set"
            },
            OpType::Del => {
                proof {
                    reveal_strlit("del");
                    assert("del"@ =~= op_token(OpType::Del));
                }
                "del"
            },
        }
    }

    /// Reads an operation kind from its token; any other text is refused.
    pub fn parse(s: &str) -> (r: Result<OpType, ParseOpError>)
        ensures
            r matches Ok(op) ==> op_of_token(s@) == Some(op),
            r is Err <==> op_of_token(s@) is None,
    {
        let t = s.to_owned();
        let get = "get".to_owned();
        let set = "set".to_owned();
        let del = "del".to_owned();
        proof {
            reveal_strlit("get");
            reveal_strlit("set");
            reveal_strlit("del");
            assert("get"@ =~= op_token(OpType::Get));
            assert("set"@ =~= op_token(OpType::Put));
            assert("del"@ =~= op_token(OpType::Del));
        }
        if t == get {
            Ok(OpType::Get)
        } else if t == set {
            Ok(OpType::Put)
        } else if t == del {
            Ok(OpType::Del)
        } else {
            Err(ParseOpError)
        }
    }
}

impl std::str::FromStr for OpType {
    type Err = ParseOpError;

    /// Reads an operation kind from its token, as `OpType::parse` does.
    fn from_str(s: &str) -> (r: Result<OpType, ParseOpError>)
        ensures
            r matches Ok(op) ==> op_of_token(s@) == Some(op),
            r is Err <==> op_of_token(s@) is None,
    {
        OpType::parse(s)
    }
}

/// Reading the token of a kind gives that kind back.
pub proof fn lemma_token_round_trip(op: OpType)
    ensures
        op_of_token(op_token(op)) == Some(op),
{
    assert(op_token(OpType::Get) != op_token(OpType::Put));
    assert(op_token(OpType::Get) != op_token(OpType::Del));
    assert(op_token(OpType::Put) != op_token(OpType::Del));
}

} // verus!
