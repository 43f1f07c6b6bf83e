//! Input normalization: optional header and whitespace stripping.
//!
//! Header stripping drops everything up to and including the first pair of
//! consecutive line feeds; whitespace stripping removes the bytes C's
//! `isspace` accepts in the POSIX locale.  When both are enabled, headers go
//! first.

use vstd::prelude::*;

use crate::SpamsumOptions;

verus! {

/// Bytes removed by whitespace stripping (POSIX `isspace`).
pub open spec fn is_space_byte(b: u8) -> bool {
    b == 0x20 || b == 0x09 || b == 0x0A || b == 0x0B || b == 0x0C || b == 0x0D
}

/// `s` with every whitespace byte removed, order kept.
pub open spec fn strip_whitespace_seq(s: Seq<u8>) -> Seq<u8>
    decreases s.len(),
{
    if s.len() == 0 {
        s
    } else {
        let rest = strip_whitespace_seq(s.drop_last());
        if is_space_byte(s.last()) {
            rest
        } else {
            rest.push(s.last())
        }
    }
}

/// Two consecutive line feeds start at index `i` of `s`.
pub open spec fn is_separator_at(s: Seq<u8>, i: int) -> bool {
    0 <= i && i + 1 < s.len() && s[i] == 0x0A && s[i + 1] == 0x0A
}

/// Index just past the first two consecutive line feeds, or 0 when there
/// are none.
pub open spec fn header_end(s: Seq<u8>) -> int
    decreases s.len(),
{
    if s.len() < 2 {
        0
    } else if s[0] == 0x0A && s[1] == 0x0A {
        2
    } else if header_end(s.skip(1)) == 0 {
        0
    } else {
        header_end(s.skip(1)) + 1
    }
}

/// `s` with a leading header block removed: everything up to and including
/// the first two consecutive line feeds, or `s` unchanged when none occur.
pub open spec fn strip_headers_seq(s: Seq<u8>) -> Seq<u8> {
    s.skip(header_end(s))
}

/// The input after the normalization steps that `options` enables.
pub open spec fn filtered_spec(s: Seq<u8>, options: SpamsumOptions) -> Seq<u8> {
    let after_headers = if options.ignore_headers {
        strip_headers_seq(s)
    } else {
        s
    };
    if options.ignore_whitespace {
        strip_whitespace_seq(after_headers)
    } else {
        after_headers
    }
}

/// Whitespace stripping never grows the input.
pub proof fn lemma_strip_whitespace_len(s: Seq<u8>)
    ensures
        strip_whitespace_seq(s).len() <= s.len(),
    decreases s.len(),
{
    if s.len() > 0 {
        lemma_strip_whitespace_len(s.drop_last());
    }
}

/// No whitespace byte survives whitespace stripping.
proof fn lemma_strip_whitespace_clean(s: Seq<u8>)
    ensures
        forall|i: int| 0 <= i < strip_whitespace_seq(s).len() ==> !is_space_byte(
            #[trigger] strip_whitespace_seq(s)[i],
        ),
    decreases s.len(),
{
    if s.len() > 0 {
        lemma_strip_whitespace_clean(s.drop_last());
        let rest = strip_whitespace_seq(s.drop_last());
        if !is_space_byte(s.last()) {
            assert forall|i: int|
                0 <= i < strip_whitespace_seq(s).len() implies !is_space_byte(
                strip_whitespace_seq(s)[i],
            ) by {
                if i < rest.len() {
                    assert(strip_whitespace_seq(s)[i] == rest[i]);
                } else {
                    assert(strip_whitespace_seq(s)[i] == s.last());
                }
            }
        }
    }
}

/// Stripping whitespace from a sequence without any leaves it unchanged.
proof fn lemma_strip_whitespace_fixed(s: Seq<u8>)
    requires
        forall|i: int| 0 <= i < s.len() ==> !is_space_byte(#[trigger] s[i]),
    ensures
        strip_whitespace_seq(s) == s,
    decreases s.len(),
{
    if s.len() > 0 {
        lemma_strip_whitespace_fixed(s.drop_last());
        assert(strip_whitespace_seq(s.drop_last()).push(s.last()) =~= s);
    }
}

/// Applying whitespace stripping twice equals applying it once.
pub proof fn lemma_strip_whitespace_idempotent(s: Seq<u8>)
    ensures
        strip_whitespace_seq(strip_whitespace_seq(s)) == strip_whitespace_seq(s),
{
    lemma_strip_whitespace_clean(s);
    lemma_strip_whitespace_fixed(strip_whitespace_seq(s));
}

/// `header_end` is 0 exactly when no separator occurs; otherwise it points
/// just past the first separator.
proof fn lemma_header_end_characterization(s: Seq<u8>)
    ensures
        header_end(s) == 0 ==> forall|j: int| !is_separator_at(s, j),
        header_end(s) != 0 ==> {
            &&& 2 <= header_end(s) <= s.len()
            &&& is_separator_at(s, header_end(s) - 2)
            &&& forall|j: int| j < header_end(s) - 2 ==> !is_separator_at(s, j)
        },
    decreases s.len(),
{
    if s.len() < 2 {
    } else if s[0] == 0x0A && s[1] == 0x0A {
        assert(is_separator_at(s, 0));
    } else {
        let t = s.skip(1);
        lemma_header_end_characterization(t);
        assert forall|j: int| 1 <= j implies is_separator_at(s, j) == is_separator_at(
            t,
            j - 1,
        ) by {
            assert(t.len() == s.len() - 1);
            if 0 <= j - 1 && j < s.len() {
                assert(t[j - 1] == s[j]);
                if j + 1 < s.len() {
                    assert(t[j] == s[j + 1]);
                }
            }
        }
        assert(!is_separator_at(s, 0));
        if header_end(t) == 0 {
            assert forall|j: int| !is_separator_at(s, j) by {
                if j >= 1 {
                    assert(!is_separator_at(t, j - 1));
                }
            }
        } else {
            assert(is_separator_at(t, header_end(t) - 2));
            assert(is_separator_at(s, header_end(s) - 2));
            assert forall|j: int| j < header_end(s) - 2 implies !is_separator_at(s, j) by {
                if j >= 1 {
                    assert(!is_separator_at(t, j - 1));
                }
            }
        }
    }
}

/// `header_end` always lies within the sequence.
proof fn lemma_header_end_bounds(s: Seq<u8>)
    ensures
        0 <= header_end(s) <= s.len(),
{
    lemma_header_end_characterization(s);
}

/// Header stripping never grows the input.
pub proof fn lemma_strip_headers_len(s: Seq<u8>)
    ensures
        strip_headers_seq(s).len() <= s.len(),
{
    lemma_header_end_bounds(s);
}

/// Applying header stripping twice equals applying it once, provided the
/// first application leaves no further separator pair behind.
pub proof fn lemma_strip_headers_idempotent(s: Seq<u8>)
    requires
        forall|j: int| !is_separator_at(strip_headers_seq(s), j),
    ensures
        strip_headers_seq(strip_headers_seq(s)) == strip_headers_seq(s),
{
    let t = strip_headers_seq(s);
    lemma_header_end_characterization(t);
    if header_end(t) != 0 {
        assert(is_separator_at(t, header_end(t) - 2));
    }
    assert(strip_headers_seq(t) =~= t);
}

/// Normalization never grows the input.
pub proof fn lemma_filtered_len(s: Seq<u8>, options: SpamsumOptions)
    ensures
        filtered_spec(s, options).len() <= s.len(),
{
    lemma_strip_headers_len(s);
    lemma_strip_whitespace_len(s);
    lemma_strip_whitespace_len(strip_headers_seq(s));
}

/// Applies the normalization steps that `options` enables, in place: first
/// header stripping, then whitespace stripping.
pub fn filter_input(input: &mut Vec<u8>, options: SpamsumOptions)
    ensures
        final(input)@ == filtered_spec(old(input)@, options),
        final(input)@.len() <= old(input)@.len(),
{
    proof {
        lemma_filtered_len(old(input)@, options);
    }
    if options.ignore_headers {
        let ghost s = input@;
        let n = input.len();
        let mut found = false;
        let mut start: usize = 0;
        let mut i: usize = 0;
        while n - i > 1
            invariant
                input@ == s,
                n == s.len(),
                i <= n,
                found ==> {
                    &&& 2 <= start <= n
                    &&& is_separator_at(s, start - 2)
                    &&& forall|j: int| j < start - 2 ==> !is_separator_at(s, j)
                },
                !found ==> start == 0 && forall|j: int| j < i ==> !is_separator_at(s, j),
            decreases n - i,
        {
            if !found && input[i] == 0x0A && input[i + 1] == 0x0A {
                found = true;
                start = i + 2;
            }
            i = i + 1;
        }
        proof {
            lemma_header_end_characterization(s);
            if found {
                assert(header_end(s) != 0);
                assert(start == header_end(s));
            } else {
                assert forall|j: int| !is_separator_at(s, j) by {
                    if j + 1 < s.len() {
                        assert(j < i);
                    }
                }
                assert(header_end(s) == 0);
            }
        }
        let mut out: Vec<u8> = Vec::new();
        let mut k: usize = start;
        while k < n
            invariant
                input@ == s,
                n == s.len(),
                start <= k <= n,
                out@ == s.subrange(start as int, k as int),
            decreases n - k,
        {
            out.push(input[k]);
            proof {
                assert(s.subrange(start as int, k + 1) =~= s.subrange(
                    start as int,
                    k as int,
                ).push(s[k as int]));
            }
            k = k + 1;
        }
        proof {
            assert(s.subrange(start as int, n as int) =~= s.skip(start as int));
        }
        *input = out;
    }
    if options.ignore_whitespace {
        let ghost t = input@;
        let n = input.len();
        let mut out: Vec<u8> = Vec::new();
        let mut k: usize = 0;
        while k < n
            invariant
                input@ == t,
                n == t.len(),
                k <= n,
                out@ == strip_whitespace_seq(t.take(k as int)),
            decreases n - k,
        {
            let c = input[k];
            proof {
                assert(t.take(k + 1).drop_last() =~= t.take(k as int));
                assert(t.take(k + 1).last() == t[k as int]);
            }
            if !(c == 0x20 || c == 0x09 || c == 0x0A || c == 0x0B || c == 0x0C || c == 0x0D) {
                out.push(c);
            }
            k = k + 1;
        }
        proof {
            assert(t.take(n as int) =~= t);
        }
        *input = out;
    }
}

} // verus!
