//! Text primitives: lowercasing and whitespace tokenization.

use vstd::prelude::*;

verus! {

/// The lowercase form of a character sequence, as Unicode case mapping
/// defines it. The mapping is a pure function of the characters alone; its
/// full definition is not written out here, so nothing is assumed about its
/// value on any particular input.
pub uninterp spec fn lower_of(s: Seq<char>) -> Seq<char>;

/// Relies on str::to_lowercase: the result is determined by the characters
/// of the input alone.
#[verifier::external_body]
pub fn lowercase(s: &str) -> (r: String)
    ensures
        r@ == lower_of(s@),
{
    s.to_lowercase()
}

/// Whether `c` is a whitespace character, following Unicode's White_Space
/// property (the separator that input lines are split on).
pub open spec fn is_space(c: char) -> bool {
    let u = c as u32;
    u == 0x09 || u == 0x0A || u == 0x0B || u == 0x0C || u == 0x0D || u == 0x20 || u == 0x85
        || u == 0xA0 || u == 0x1680 || (0x2000 <= u && u <= 0x200A) || u == 0x2028 || u == 0x2029
        || u == 0x202F || u == 0x205F || u == 0x3000
}

/// Executable test for `is_space`.
pub fn is_space_char(c: char) -> (r: bool)
    ensures
        r == is_space(c),
{
    let u = c as u32;
    u == 0x09 || u == 0x0A || u == 0x0B || u == 0x0C || u == 0x0D || u == 0x20 || u == 0x85
        || u == 0xA0 || u == 0x1680 || (0x2000 <= u && u <= 0x200A) || u == 0x2028 || u == 0x2029
        || u == 0x202F || u == 0x205F || u == 0x3000
}

/// A pending token becomes a one-token sequence, and an empty pending token
/// contributes nothing.
pub open spec fn emit(cur: Seq<char>) -> Seq<Seq<char>> {
    if cur.len() == 0 {
        Seq::empty()
    } else {
        seq![cur]
    }
}

/// The tokens of `s` from position `i` on, with `cur` the run of non-space
/// characters read immediately before position `i`.
pub open spec fn split_from(s: Seq<char>, i: int, cur: Seq<char>) -> Seq<Seq<char>>
    decreases s.len() - i,
{
    if i < 0 || i >= s.len() {
        emit(cur)
    } else if is_space(s[i]) {
        emit(cur) + split_from(s, i + 1, Seq::empty())
    } else {
        split_from(s, i + 1, cur.push(s[i]))
    }
}

/// The whitespace-delimited tokens of `s`, in order. Any run of whitespace
/// separates; leading and trailing whitespace yields no empty token.
pub open spec fn tokens_of(s: Seq<char>) -> Seq<Seq<char>> {
    split_from(s, 0, Seq::empty())
}

/// Splits a line on whitespace. Every token of the result is a maximal run
/// of non-space characters of the input, and the order of the input is kept.
pub fn tokenize(s: &str) -> (r: Vec<String>)
    ensures
        r@.map_values(|t: String| t@) == tokens_of(s@),
{
    let n = s.unicode_len();
    let mut out: Vec<String> = Vec::new();
    let mut i: usize = 0;
    let mut start: usize = 0;
    let mut in_token: bool = false;
    while i < n
        invariant
            n == s@.len(),
            i <= n,
            in_token ==> start < i,
            out@.map_values(|t: String| t@) + split_from(
                s@,
                i as int,
                if in_token {
                    s@.subrange(start as int, i as int)
                } else {
                    Seq::<char>::empty()
                },
            ) == tokens_of(s@),
        decreases n - i,
    {
        let ghost cur = if in_token {
            s@.subrange(start as int, i as int)
        } else {
            Seq::<char>::empty()
        };
        let c = s.get_char(i);
        if is_space_char(c) {
            proof {
                assert(split_from(s@, i as int, cur) == emit(cur) + split_from(
                    s@,
                    i + 1,
                    Seq::<char>::empty(),
                ));
            }
            if in_token {
                let tok = s.substring_char(start, i);
                let owned = tok.to_owned();
                proof {
                    assert((out@.push(owned)).map_values(|t: String| t@) =~= out@.map_values(
                        |t: String| t@,
                    ).push(cur));
                    assert(out@.map_values(|t: String| t@).push(cur) + split_from(
                        s@,
                        i + 1,
                        Seq::<char>::empty(),
                    ) =~= out@.map_values(|t: String| t@) + (emit(cur) + split_from(
                        s@,
                        i + 1,
                        Seq::<char>::empty(),
                    )));
                }
                out.push(owned);
                in_token = false;
            } else {
                proof {
                    assert(emit(cur) + split_from(s@, i + 1, Seq::<char>::empty()) =~= split_from(
                        s@,
                        i + 1,
                        Seq::<char>::empty(),
                    ));
                }
            }
        } else {
            if !in_token {
                start = i;
                in_token = true;
            }
            proof {
                assert(s@.subrange(start as int, i + 1) =~= cur.push(s@[i as int]));
                assert(split_from(s@, i as int, cur) == split_from(
                    s@,
                    i + 1,
                    cur.push(s@[i as int]),
                ));
            }
        }
        i = i + 1;
    }
    let ghost cur = if in_token {
        s@.subrange(start as int, i as int)
    } else {
        Seq::<char>::empty()
    };
    proof {
        assert(split_from(s@, i as int, cur) == emit(cur));
    }
    if in_token {
        let tok = s.substring_char(start, n);
        let owned = tok.to_owned();
        proof {
            assert((out@.push(owned)).map_values(|t: String| t@) =~= out@.map_values(
                |t: String| t@,
            ).push(cur));
            assert(out@.map_values(|t: String| t@).push(cur) =~= out@.map_values(|t: String| t@)
                + emit(cur));
        }
        out.push(owned);
    } else {
        proof {
            assert(out@.map_values(|t: String| t@) + emit(cur) =~= out@.map_values(
                |t: String| t@,
            ));
        }
    }
    out
}

} // verus!
