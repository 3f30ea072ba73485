//! Strings: white space, and the order by bytes.

use vstd::prelude::*;
use vstd::utf8::encode_utf8;

verus! {

/// The characters with the Unicode property `White_Space`.
pub open spec fn is_white_space(c: char) -> bool {
    ||| '\u{9}' <= c <= '\u{d}'
    ||| c == ' '
    ||| c == '\u{85}'
    ||| c == '\u{a0}'
    ||| c == '\u{1680}'
    ||| '\u{2000}' <= c <= '\u{200a}'
    ||| c == '\u{2028}'
    ||| c == '\u{2029}'
    ||| c == '\u{202f}'
    ||| c == '\u{205f}'
    ||| c == '\u{3000}'
}

/// `s` without its leading white space.
pub open spec fn trimmed_start(s: Seq<char>) -> Seq<char>
    decreases s.len(),
{
    if s.len() > 0 && is_white_space(s[0]) {
        trimmed_start(s.drop_first())
    } else {
        s
    }
}

/// `s` without its trailing white space.
pub open spec fn trimmed_end(s: Seq<char>) -> Seq<char>
    decreases s.len(),
{
    if s.len() > 0 && is_white_space(s.last()) {
        trimmed_end(s.drop_last())
    } else {
        s
    }
}

/// `s` without its leading and trailing white space.
pub open spec fn trimmed(s: Seq<char>) -> Seq<char> {
    trimmed_end(trimmed_start(s))
}

proof fn lemma_trimmed_start_skips(s: Seq<char>, n: int)
    requires
        0 <= n <= s.len(),
        forall|i: int| 0 <= i < n ==> is_white_space(#[trigger] s[i]),
        n < s.len() ==> !is_white_space(s[n]),
    ensures
        trimmed_start(s) == s.skip(n),
    decreases n,
{
    if n == 0 {
        assert(s.skip(0) =~= s);
    } else {
        let rest = s.drop_first();
        assert(forall|i: int| 0 <= i < n - 1 ==> rest[i] == s[i + 1]);
        lemma_trimmed_start_skips(rest, n - 1);
        assert(rest.skip(n - 1) =~= s.skip(n));
    }
}

proof fn lemma_trimmed_end_takes(s: Seq<char>, n: int)
    requires
        0 <= n <= s.len(),
        forall|i: int| n <= i < s.len() ==> is_white_space(#[trigger] s[i]),
        n > 0 ==> !is_white_space(s[n - 1]),
    ensures
        trimmed_end(s) == s.take(n),
    decreases s.len(),
{
    if n == s.len() {
        assert(s.take(n) =~= s);
    } else {
        lemma_trimmed_end_takes(s.drop_last(), n);
        assert(s.drop_last().take(n) =~= s.take(n));
    }
}

/// Whether `c` is white space.
pub fn is_white_space_char(c: char) -> (r: bool)
    ensures
        r == is_white_space(c),
{
    ('\u{9}' <= c && c <= '\u{d}') || c == ' ' || c == '\u{85}' || c == '\u{a0}' || c == '\u{1680}'
        || ('\u{2000}' <= c && c <= '\u{200a}') || c == '\u{2028}' || c == '\u{2029}' || c
        == '\u{202f}' || c == '\u{205f}' || c == '\u{3000}'
}

/// `s` without its leading and trailing white space.
pub fn trim(s: &str) -> (r: &str)
    ensures
        r@ == trimmed(s@),
{
    let mut start: usize = 0;
    let mut end: usize = 0;
    let mut n: usize = 0;
    let len: usize = s.unicode_len();
    for c in it: s.chars()
        invariant
            it.seq() == s@,
            n == it.index(),
            len == s@.len(),
            start <= n,
            end <= n,
            forall|i: int| 0 <= i < start ==> is_white_space(#[trigger] s@[i]),
            start < n ==> !is_white_space(s@[start as int]) && start < end,
            forall|i: int| end <= i < n ==> is_white_space(#[trigger] s@[i]),
            end > 0 ==> !is_white_space(s@[end - 1]),
            start == n ==> end == 0,
    {
        let white: bool = is_white_space_char(c);
        if white {
            if start == n {
                start = n + 1;
            }
        } else {
            end = n + 1;
        }
        n = n + 1;
    }
    if start == n {
        proof {
            lemma_trimmed_start_skips(s@, start as int);
        }
        s.substring_char(n, n)
    } else {
        proof {
            lemma_trimmed_start_skips(s@, start as int);
            let rest = s@.skip(start as int);
            lemma_trimmed_end_takes(rest, end - start);
            assert(rest.take(end - start) =~= s@.subrange(start as int, end as int));
        }
        s.substring_char(start, end)
    }
}

/// Whether the first `n` bytes of `a` and `b` agree.
pub open spec fn agree_up_to(a: Seq<u8>, b: Seq<u8>, n: int) -> bool {
    &&& 0 <= n <= a.len()
    &&& n <= b.len()
    &&& forall|i: int| 0 <= i < n ==> #[trigger] a[i] == b[i]
}

/// The lexicographic order: at the first place where they differ `a` has ended
/// or holds the smaller byte.
pub open spec fn bytes_less(a: Seq<u8>, b: Seq<u8>) -> bool {
    exists|n: int| #[trigger]
        agree_up_to(a, b, n) && n < b.len() && (n == a.len() || a[n] < b[n])
}

/// The order of strings: that of their UTF-8 bytes.
pub open spec fn str_less(a: Seq<char>, b: Seq<char>) -> bool {
    bytes_less(encode_utf8(a), encode_utf8(b))
}

/// `a` does not come after `b`.
pub open spec fn str_at_most(a: Seq<char>, b: Seq<char>) -> bool {
    !str_less(b, a)
}

proof fn lemma_bytes_less_decided(a: Seq<u8>, b: Seq<u8>, n: int)
    requires
        agree_up_to(a, b, n),
        n == a.len() || n == b.len() || a[n] != b[n],
    ensures
        bytes_less(a, b) <==> n < b.len() && (n == a.len() || a[n] < b[n]),
        n == a.len() && n == b.len() ==> a == b,
{
    if n == a.len() && n == b.len() {
        assert(a =~= b);
    }
    if bytes_less(a, b) {
        let m = choose|m: int| #[trigger]
            agree_up_to(a, b, m) && m < b.len() && (m == a.len() || a[m] < b[m]);
        if m < n {
            assert(a[m] == b[m]);
        } else if n < m {
            assert(a[n] == b[n]);
        }
    }
}

proof fn lemma_first_difference(a: Seq<u8>, b: Seq<u8>, from: int) -> (n: int)
    requires
        agree_up_to(a, b, from),
    ensures
        agree_up_to(a, b, n),
        n == a.len() || n == b.len() || a[n] != b[n],
    decreases a.len() - from,
{
    if from == a.len() || from == b.len() || a[from] != b[from] {
        from
    } else {
        lemma_first_difference(a, b, from + 1)
    }
}

/// No string comes before itself.
pub proof fn law_str_less_irreflexive(a: Seq<char>)
    ensures
        !str_less(a, a),
{
    let bytes = encode_utf8(a);
    lemma_bytes_less_decided(bytes, bytes, bytes.len() as int);
}

/// Of two different strings exactly one comes first.
pub proof fn law_str_less_total(a: Seq<char>, b: Seq<char>)
    ensures
        a != b ==> (str_less(a, b) <==> !str_less(b, a)),
{
    let x = encode_utf8(a);
    let y = encode_utf8(b);
    let n = lemma_first_difference(x, y, 0);
    assert(agree_up_to(y, x, n));
    lemma_bytes_less_decided(x, y, n);
    lemma_bytes_less_decided(y, x, n);
    vstd::utf8::encode_utf8_decode_utf8(a);
    vstd::utf8::encode_utf8_decode_utf8(b);
}

/// The order of strings is transitive.
pub proof fn law_str_less_transitive(a: Seq<char>, b: Seq<char>, c: Seq<char>)
    requires
        str_less(a, b),
        str_less(b, c),
    ensures
        str_less(a, c),
{
    let x = encode_utf8(a);
    let y = encode_utf8(b);
    let z = encode_utf8(c);
    let n = lemma_first_difference(x, y, 0);
    let m = lemma_first_difference(y, z, 0);
    lemma_bytes_less_decided(x, y, n);
    lemma_bytes_less_decided(y, z, m);
    let k = if n <= m { n } else { m };
    assert forall|i: int| 0 <= i < k implies #[trigger] x[i] == z[i] by {
        assert(x[i] == y[i]);
        assert(y[i] == z[i]);
    }
    if n < m {
        assert(y[n] == z[n]);
    } else if m < n {
        assert(x[m] == y[m]);
    }
    assert(agree_up_to(x, z, k));
    lemma_bytes_less_decided(x, z, k);
}

/// Whether `a` comes before `b` in the order of strings.
pub fn str_lt(a: &str, b: &str) -> (r: bool)
    ensures
        r == str_less(a@, b@),
{
    let x = a.as_bytes();
    let y = b.as_bytes();
    let mut n: usize = 0;
    while n < x.len() && n < y.len() && x[n] == y[n]
        invariant
            agree_up_to(x@, y@, n as int),
        decreases x.len() - n,
    {
        n = n + 1;
    }
    proof {
        lemma_bytes_less_decided(x@, y@, n as int);
    }
    n < y.len() && (n == x.len() || x[n] < y[n])
}

/// Whether `a` and `b` are the same string.
pub fn str_eq(a: &str, b: &str) -> (r: bool)
    ensures
        r == (a@ == b@),
{
    let x = a.as_bytes();
    let y = b.as_bytes();
    let mut n: usize = 0;
    while n < x.len() && n < y.len() && x[n] == y[n]
        invariant
            agree_up_to(x@, y@, n as int),
        decreases x.len() - n,
    {
        n = n + 1;
    }
    proof {
        if n == x.len() && n == y.len() {
            assert(x@ =~= y@);
        }
        vstd::utf8::encode_utf8_decode_utf8(a@);
        vstd::utf8::encode_utf8_decode_utf8(b@);
    }
    n == x.len() && n == y.len()
}

/// White space by its code points: tab to carriage return, space, next line,
/// no-break space, and the Unicode spaces and separators.
pub proof fn law_white_space_code_points(c: char)
    ensures
        is_white_space(c) <==> {
            let code = c as u32;
            ||| 9 <= code <= 13
            ||| code == 32
            ||| code == 133
            ||| code == 160
            ||| code == 5760
            ||| 8192 <= code <= 8202
            ||| code == 8232
            ||| code == 8233
            ||| code == 8239
            ||| code == 8287
            ||| code == 12288
        },
{
}

/// Trimming takes off the white space around a text and no more: whatever white
/// space is put before and behind a text that has none at its ends, trimming
/// gives the text back.
pub proof fn law_trimming_undoes_padding(before: Seq<char>, text: Seq<char>, behind: Seq<char>)
    requires
        forall|i: int| 0 <= i < before.len() ==> is_white_space(#[trigger] before[i]),
        forall|i: int| 0 <= i < behind.len() ==> is_white_space(#[trigger] behind[i]),
        text.len() > 0 ==> !is_white_space(text[0]) && !is_white_space(text.last()),
    ensures
        trimmed(before + text + behind) == text,
{
    let s = before + text + behind;
    if text.len() == 0 {
        assert forall|i: int| 0 <= i < s.len() implies is_white_space(#[trigger] s[i]) by {
            if i < before.len() {
                assert(s[i] == before[i]);
            } else {
                assert(s[i] == behind[i - before.len()]);
            }
        }
        lemma_trimmed_start_skips(s, s.len() as int);
        assert(s.skip(s.len() as int) =~= text);
        lemma_trimmed_end_takes(text, 0);
        assert(text.take(0) =~= text);
    } else {
        let n = before.len() as int;
        assert forall|i: int| 0 <= i < n implies is_white_space(#[trigger] s[i]) by {
            assert(s[i] == before[i]);
        }
        assert(s[n] == text[0]);
        lemma_trimmed_start_skips(s, n);
        let rest = s.skip(n);
        assert(rest =~= text + behind);
        assert forall|i: int| text.len() <= i < rest.len() implies is_white_space(
            #[trigger] rest[i],
        ) by {
            assert(rest[i] == behind[i - text.len()]);
        }
        assert(rest[text.len() - 1] == text.last());
        lemma_trimmed_end_takes(rest, text.len() as int);
        assert(rest.take(text.len() as int) =~= text);
    }
}

/// Of two strings whose bytes agree up to some place, the one with the smaller
/// byte there comes first, whatever follows.
pub proof fn law_first_different_byte_decides(
    a: Seq<char>,
    b: Seq<char>,
    shared: Seq<u8>,
    x: u8,
    y: u8,
    rest_a: Seq<u8>,
    rest_b: Seq<u8>,
)
    requires
        encode_utf8(a) == shared + seq![x] + rest_a,
        encode_utf8(b) == shared + seq![y] + rest_b,
        x < y,
    ensures
        str_less(a, b),
        !str_less(b, a),
        str_at_most(a, b),
        !str_at_most(b, a),
{
    let n = shared.len() as int;
    let p = encode_utf8(a);
    let q = encode_utf8(b);
    assert(p[n] == x && q[n] == y);
    assert forall|i: int| 0 <= i < n implies #[trigger] p[i] == q[i] by {
        assert(p[i] == shared[i] && q[i] == shared[i]);
    }
    assert(agree_up_to(p, q, n));
    assert forall|i: int| 0 <= i < n implies #[trigger] q[i] == p[i] by {
        assert(p[i] == shared[i] && q[i] == shared[i]);
    }
    assert(agree_up_to(q, p, n));
    lemma_bytes_less_decided(p, q, n);
    lemma_bytes_less_decided(q, p, n);
}

/// A string comes before every longer one that starts with its bytes, and each is
/// at most itself.
pub proof fn law_prefix_comes_first(a: Seq<char>, b: Seq<char>, x: u8, rest: Seq<u8>)
    requires
        encode_utf8(b) == encode_utf8(a) + seq![x] + rest,
    ensures
        str_less(a, b),
        !str_less(b, a),
        str_at_most(a, b),
        !str_at_most(b, a),
        str_at_most(a, a),
{
    let p = encode_utf8(a);
    let q = encode_utf8(b);
    let n = p.len() as int;
    assert forall|i: int| 0 <= i < n implies #[trigger] q[i] == p[i] by {}
    assert(agree_up_to(p, q, n));
    assert(agree_up_to(q, p, n));
    lemma_bytes_less_decided(p, q, n);
    lemma_bytes_less_decided(q, p, n);
    law_str_less_irreflexive(a);
}

} // verus!
