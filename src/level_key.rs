use vstd::prelude::*;
use crate::text::{dec_text, digit_char, digit_value, to_digit, lemma_digit_roundtrip};

verus! {

/// The identity of a level entry: the cog level and whether the entry is
/// the v2.0 table for that level.
#[derive(Clone, Copy, Debug, PartialEq, Eq, Structural)]
pub struct LevelKey {
    pub v2: bool,
    pub level: u8,
}

impl LevelKey {
    /// A level of one or two digits, the first of them not zero.
    pub open spec fn wf(self) -> bool {
        1 <= self.level <= 99
    }

    /// Entries are ordered by `(v2, level)`: every non-v2 entry before
    /// every v2 entry, each group by ascending level.
    pub open spec fn before(self, other: LevelKey) -> bool {
        (!self.v2 && other.v2) || (self.v2 == other.v2 && self.level < other.level)
    }

    /// Whether this key's column comes before `other`'s.
    pub fn before_exec(&self, other: &LevelKey) -> (r: bool)
        ensures
            r == self.before(*other),
    {
        (!self.v2 && other.v2) || (self.v2 == other.v2 && self.level < other.level)
    }
}

/// The document key that names a level entry: `level_<N>` or
/// `level_<N>_v2`.
pub open spec fn key_text(k: LevelKey) -> Seq<char> {
    seq!['l', 'e', 'v', 'e', 'l', '_'] + dec_text(k.level as nat) + (if k.v2 {
        seq!['_', 'v', '2']
    } else {
        Seq::<char>::empty()
    })
}

/// The level entry that a document key names, if it names one.
pub open spec fn spec_level_key(s: Seq<char>) -> Option<LevelKey> {
    if exists|k: LevelKey| k.wf() && key_text(k) == s {
        Some(choose|k: LevelKey| k.wf() && key_text(k) == s)
    } else {
        None
    }
}

/// Matches a document key against the pattern `level_<N>[_v2]`, where `N`
/// has one or two decimal digits and does not start with 0.
pub fn parse_level_key(s: &str) -> (r: Option<LevelKey>)
    ensures
        r is Some ==> r->0.wf() && s@ == key_text(r->0),
        r is None ==> forall|k: LevelKey| k.wf() ==> s@ != #[trigger] key_text(k),
        r == spec_level_key(s@),
{
    let r = parse_key_text(s);
    proof {
        if r is Some {
            let k = choose|k: LevelKey| k.wf() && key_text(k) == s@;
            lemma_key_text_injective(k, r->0);
        }
    }
    r
}

fn parse_key_text(s: &str) -> (r: Option<LevelKey>)
    ensures
        r is Some ==> r->0.wf() && s@ == key_text(r->0),
        r is None ==> forall|k: LevelKey| k.wf() ==> s@ != #[trigger] key_text(k),
{
    let n = s.unicode_len();
    proof {
        assert forall|k: LevelKey| k.wf() implies 7 <= #[trigger] key_text(k).len() <= 11
            && key_text(k)[0] == 'l' && key_text(k)[1] == 'e' && key_text(k)[2] == 'v'
            && key_text(k)[3] == 'e' && key_text(k)[4] == 'l' && key_text(k)[5] == '_' by {
            lemma_level_text(k.level as nat);
        }
    }
    if n < 7 {
        return None;
    }
    if s.get_char(0) != 'l' || s.get_char(1) != 'e' || s.get_char(2) != 'v'
        || s.get_char(3) != 'e' || s.get_char(4) != 'l' || s.get_char(5) != '_' {
        return None;
    }
    let first = match to_digit(s.get_char(6)) {
        Some(d) => d,
        None => {
            proof {
                assert forall|k: LevelKey| k.wf() implies s@ != #[trigger] key_text(k) by {
                    lemma_level_text(k.level as nat);
                }
            }
            return None;
        },
    };
    if first == 0 {
        proof {
            assert forall|k: LevelKey| k.wf() implies s@ != #[trigger] key_text(k) by {
                lemma_level_text(k.level as nat);
                lemma_digit_roundtrip((k.level / 10) as int);
                lemma_digit_roundtrip((k.level % 10) as int);
            }
        }
        return None;
    }
    let mut level: u8 = first;
    let mut i: usize = 7;
    if n > 7 {
        match to_digit(s.get_char(7)) {
            Some(d) => {
                level = first * 10 + d;
                i = 8;
            },
            None => {},
        }
    }
    let rest = n - i;
    let v2 = if rest == 0 {
        false
    } else if rest == 3 && s.get_char(i) == '_' && s.get_char(i + 1) == 'v' && s.get_char(i + 2)
        == '2' {
        true
    } else {
        proof {
            assert forall|k: LevelKey| k.wf() implies s@ != #[trigger] key_text(k) by {
                lemma_level_text(k.level as nat);
                lemma_digit_roundtrip((k.level / 10) as int);
                lemma_digit_roundtrip((k.level % 10) as int);
                lemma_digit_roundtrip(first as int);
                if i == 8 {
                    lemma_digit_roundtrip((level % 10) as int);
                }
            }
        }
        return None;
    };
    let key = LevelKey { v2, level };
    proof {
        lemma_level_text(level as nat);
        lemma_digit_roundtrip(first as int);
        if i == 8 {
            lemma_digit_roundtrip((level % 10) as int);
        }
        assert(s@ =~= key_text(key));
    }
    Some(key)
}

/// Distinct well-formed keys have distinct key texts.
pub proof fn lemma_key_text_injective(a: LevelKey, b: LevelKey)
    requires
        a.wf(),
        b.wf(),
        key_text(a) == key_text(b),
    ensures
        a == b,
{
    lemma_level_text(a.level as nat);
    lemma_level_text(b.level as nat);
    lemma_digit_roundtrip((a.level / 10) as int);
    lemma_digit_roundtrip((a.level % 10) as int);
    lemma_digit_roundtrip((b.level / 10) as int);
    lemma_digit_roundtrip((b.level % 10) as int);
    let ta = key_text(a);
    let tb = key_text(b);
    assert(ta[6] == tb[6]);
    if a.level >= 10 && b.level >= 10 {
        assert(ta[7] == tb[7]);
    }
    if a.level < 10 && b.level >= 10 {
        assert(ta.len() != tb.len() || ta[7] == tb[7]);
    }
    if b.level < 10 && a.level >= 10 {
        assert(ta.len() != tb.len() || ta[7] == tb[7]);
    }
}

/// The shape of a level's digits: one digit below 10, two from 10 on.
proof fn lemma_level_text(n: nat)
    requires
        1 <= n <= 99,
    ensures
        n < 10 ==> dec_text(n) == seq![digit_char(n as int)],
        n >= 10 ==> dec_text(n) == seq![digit_char((n / 10) as int), digit_char((n % 10) as int)],
        digit_value(dec_text(n)[0]) is Some,
        digit_value(dec_text(n)[0]) != Some(0u8),
{
    reveal_with_fuel(dec_text, 3);
    if n < 10 {
        lemma_digit_roundtrip(n as int);
    } else {
        assert(dec_text(n / 10) == seq![digit_char((n / 10) as int)]);
        assert(dec_text(n) =~= seq![digit_char((n / 10) as int), digit_char((n % 10) as int)]);
        lemma_digit_roundtrip((n / 10) as int);
    }
}

} // verus!
