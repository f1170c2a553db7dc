use vstd::prelude::*;
use vstd::string::StringExecFns;

use crate::error::{message_with, PartitionError};
use crate::text::{eq_ignore_ascii_case, eq_ignore_ascii_case_spec};

verus! {

/// A comparison operator of a partition filter expression.
#[derive(Debug, Clone, Copy, PartialEq, Eq, Structural)]
pub enum HudiOperator {
    Eq,
    Ne,
    Lt,
    Lte,
    Gt,
    Gte,
}

/// The canonical token table: the single source of truth for parsing and printing.
pub open spec fn token_table() -> Seq<(Seq<char>, HudiOperator)> {
    seq![
        (seq!['='], HudiOperator::Eq),
        (seq!['!', '='], HudiOperator::Ne),
        (seq!['<'], HudiOperator::Lt),
        (seq!['<', '='], HudiOperator::Lte),
        (seq!['>'], HudiOperator::Gt),
        (seq!['>', '='], HudiOperator::Gte),
    ]
}

impl HudiOperator {
    /// The canonical token of the operator.
    pub open spec fn token(self) -> Seq<char> {
        match self {
            HudiOperator::Eq => token_table()[0].0,
            HudiOperator::Ne => token_table()[1].0,
            HudiOperator::Lt => token_table()[2].0,
            HudiOperator::Lte => token_table()[3].0,
            HudiOperator::Gt => token_table()[4].0,
            HudiOperator::Gte => token_table()[5].0,
        }
    }

    /// `s` spells the token of some operator, up to the case of ASCII letters.
    pub open spec fn is_token(s: Seq<char>) -> bool {
        exists|op: HudiOperator| eq_ignore_ascii_case_spec(op.token(), s)
    }

    /// The token table, in its canonical order.
    pub fn token_op_pairs() -> (r: [(&'static str, HudiOperator); 6])
        ensures
            forall|i: int|
                0 <= i < 6 ==> (#[trigger] r@[i]).0@ == token_table()[i].0 && r@[i].1
                    == token_table()[i].1,
    {
        let r = [
            ("=", HudiOperator::Eq),
            ("!=", HudiOperator::Ne),
            ("<", HudiOperator::Lt),
            ("<=", HudiOperator::Lte),
            (">", HudiOperator::Gt),
            (">=", HudiOperator::Gte),
        ];
        proof {
            reveal_strlit("=");
            reveal_strlit("!=");
            reveal_strlit("<");
            reveal_strlit("<=");
            reveal_strlit(">");
            reveal_strlit(">=");
            assert(r@[0].0@ =~= token_table()[0].0);
            assert(r@[1].0@ =~= token_table()[1].0);
            assert(r@[2].0@ =~= token_table()[2].0);
            assert(r@[3].0@ =~= token_table()[3].0);
            assert(r@[4].0@ =~= token_table()[4].0);
            assert(r@[5].0@ =~= token_table()[5].0);
        }
        r
    }

    /// The canonical token of the operator, as text.
    pub fn as_str(&self) -> (r: &'static str)
        ensures
            r@ == self.token(),
    {
        let pairs = HudiOperator::token_op_pairs();
        match self {
            HudiOperator::Eq => pairs[0].0,
            HudiOperator::Ne => pairs[1].0,
            HudiOperator::Lt => pairs[2].0,
            HudiOperator::Lte => pairs[3].0,
            HudiOperator::Gt => pairs[4].0,
            HudiOperator::Gte => pairs[5].0,
        }
    }

    /// The canonical token of the operator, as an owned string.
    pub fn to_string(&self) -> (r: String)
        ensures
            r@ == self.token(),
    {
        String::from_str(self.as_str())
    }

    /// Reads an operator from its token, ignoring the case of ASCII letters.
    pub fn from_str(s: &str) -> (r: Result<HudiOperator, PartitionError>)
        ensures
            r is Ok <==> HudiOperator::is_token(s@),
            r matches Ok(op) ==> eq_ignore_ascii_case_spec(op.token(), s@),
            r matches Err(e) ==> e is UnsupportedOperator,
    {
        let pairs = HudiOperator::token_op_pairs();
        let mut i: usize = 0;
        while i < 6
            invariant
                i <= 6,
                forall|k: int|
                    0 <= k < 6 ==> (#[trigger] pairs@[k]).0@ == token_table()[k].0 && pairs@[k].1
                        == token_table()[k].1,
                forall|k: int|
                    0 <= k < i ==> !eq_ignore_ascii_case_spec(#[trigger] token_table()[k].0, s@),
            decreases 6 - i,
        {
            if eq_ignore_ascii_case(pairs[i].0, s) {
                let op = pairs[i].1;
                assert(op.token() == token_table()[i as int].0);
                return Ok(op);
            }
            i = i + 1;
        }
        proof {
            assert forall|op: HudiOperator| !eq_ignore_ascii_case_spec(op.token(), s@) by {
                let k: int = match op {
                    HudiOperator::Eq => 0,
                    HudiOperator::Ne => 1,
                    HudiOperator::Lt => 2,
                    HudiOperator::Lte => 3,
                    HudiOperator::Gt => 4,
                    HudiOperator::Gte => 5,
                };
                assert(op.token() == token_table()[k].0);
            }
        }
        Err(PartitionError::UnsupportedOperator(message_with("Unsupported operator: ", s)))
    }
}

/// Parsing and printing are inverse: a string that reads as operator `op` ignoring
/// ASCII case reads as no other operator, and it is already `op`'s canonical token,
/// since no token holds a letter.
pub proof fn lemma_token_round_trip(op: HudiOperator, s: Seq<char>)
    requires
        eq_ignore_ascii_case_spec(op.token(), s),
    ensures
        s == op.token(),
        forall|other: HudiOperator| eq_ignore_ascii_case_spec(other.token(), s) ==> other == op,
{
    assert(s =~= op.token()) by {
        assert forall|i: int| 0 <= i < s.len() implies s[i] == op.token()[i] by {
            assert(crate::text::char_eq_ignore_ascii_case(op.token()[i], s[i]));
        }
    }
    assert forall|other: HudiOperator| eq_ignore_ascii_case_spec(other.token(), s) implies other
        == op by {
        assert forall|i: int| 0 <= i < s.len() implies s[i] == other.token()[i] by {
            assert(crate::text::char_eq_ignore_ascii_case(other.token()[i], s[i]));
        }
        assert(s =~= other.token());
        lemma_tokens_distinct(op, other);
    }
}

/// No two operators share a token.
proof fn lemma_tokens_distinct(a: HudiOperator, b: HudiOperator)
    requires
        a.token() == b.token(),
    ensures
        a == b,
{
    let ta = a.token();
    assert(ta.len() == b.token().len());
    assert(ta[0] == b.token()[0]);
    match a {
        HudiOperator::Eq => assert(ta.len() == 1 && ta[0] == '='),
        HudiOperator::Ne => assert(ta.len() == 2 && ta[0] == '!'),
        HudiOperator::Lt => assert(ta.len() == 1 && ta[0] == '<'),
        HudiOperator::Lte => assert(ta.len() == 2 && ta[0] == '<'),
        HudiOperator::Gt => assert(ta.len() == 1 && ta[0] == '>'),
        HudiOperator::Gte => assert(ta.len() == 2 && ta[0] == '>'),
    }
    let tb = b.token();
    match b {
        HudiOperator::Eq => assert(tb.len() == 1 && tb[0] == '='),
        HudiOperator::Ne => assert(tb.len() == 2 && tb[0] == '!'),
        HudiOperator::Lt => assert(tb.len() == 1 && tb[0] == '<'),
        HudiOperator::Lte => assert(tb.len() == 2 && tb[0] == '<'),
        HudiOperator::Gt => assert(tb.len() == 1 && tb[0] == '>'),
        HudiOperator::Gte => assert(tb.len() == 2 && tb[0] == '>'),
    }
}

} // verus!
