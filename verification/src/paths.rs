//! Path text handling.
//!
//! Paths are carried as plain strings. The routing rules only ever read a
//! path's final segment (its file name) and that segment's final extension,
//! both defined here as spec functions with verified extractors.

use vstd::prelude::*;

verus! {

/// The index of the last occurrence of `c` in `s`, if any.
pub open spec fn last_occurrence(s: Seq<char>, c: char) -> Option<int>
    decreases s.len(),
{
    if s.len() == 0 {
        None
    } else if s[s.len() - 1] == c {
        Some(s.len() - 1)
    } else {
        last_occurrence(s.drop_last(), c)
    }
}

pub proof fn lemma_last_occurrence_some(s: Seq<char>, c: char, j: int)
    requires
        0 <= j < s.len(),
        s[j] == c,
        forall|k: int| j < k < s.len() ==> s[k] != c,
    ensures
        last_occurrence(s, c) == Some(j),
    decreases s.len(),
{
    if j < s.len() - 1 {
        assert(s.drop_last() =~= s.subrange(0, s.len() - 1));
        lemma_last_occurrence_some(s.drop_last(), c, j);
    }
}

pub proof fn lemma_last_occurrence_none(s: Seq<char>, c: char)
    requires
        forall|k: int| 0 <= k < s.len() ==> s[k] != c,
    ensures
        last_occurrence(s, c) is None,
    decreases s.len(),
{
    if s.len() > 0 {
        lemma_last_occurrence_none(s.drop_last(), c);
    }
}

/// Scan `s` from its end for the last occurrence of `c`.
pub fn find_last(s: &str, c: char) -> (r: Option<usize>)
    ensures
        match r {
            Some(j) => j < s@.len() && last_occurrence(s@, c) == Some(j as int),
            None => last_occurrence(s@, c) is None,
        },
{
    let n = s.unicode_len();
    let mut i = n;
    while i > 0
        invariant
            i <= n,
            n == s@.len(),
            forall|k: int| i <= k < s@.len() ==> s@[k] != c,
        decreases i,
    {
        i = i - 1;
        if s.get_char(i) == c {
            proof {
                lemma_last_occurrence_some(s@, c, i as int);
            }
            return Some(i);
        }
    }
    proof {
        lemma_last_occurrence_none(s@, c);
    }
    None
}

/// The final segment of a path: the text after its last '/', or the whole
/// text when no '/' occurs.
pub open spec fn last_segment(p: Seq<char>) -> Seq<char> {
    match last_occurrence(p, '/') {
        Some(j) => p.subrange(j + 1, p.len() as int),
        None => p,
    }
}

/// The file name of a path: its final segment, unless that segment is empty
/// or one of the pseudo-entries "." and "..".
pub open spec fn file_name_of(p: Seq<char>) -> Option<Seq<char>> {
    let seg = last_segment(p);
    if seg.len() == 0 || seg == seq!['.'] || seg == seq!['.', '.'] {
        None
    } else {
        Some(seg)
    }
}

/// The extension of a path: the text after the last '.' of its file name.
/// Only the final suffix counts: "a.tar.gz" has extension "gz". A name
/// without a '.', or whose only '.' is its first character (a hidden file),
/// has none.
pub open spec fn extension_of(p: Seq<char>) -> Option<Seq<char>> {
    match file_name_of(p) {
        Some(name) => match last_occurrence(name, '.') {
            Some(j) => if j > 0 {
                Some(name.subrange(j + 1, name.len() as int))
            } else {
                None
            },
            None => None,
        },
        None => None,
    }
}

/// Extract the file name of a path, as `file_name_of` defines it.
pub fn file_name(p: &str) -> (r: Option<String>)
    ensures
        match r {
            Some(name) => file_name_of(p@) == Some(name@),
            None => file_name_of(p@) is None,
        },
{
    let n = p.unicode_len();
    let start: usize = match find_last(p, '/') {
        Some(j) => j + 1,
        None => 0,
    };
    let seg = p.substring_char(start, n);
    proof {
        assert(seg@ =~= last_segment(p@));
    }
    let len = n - start;
    if len == 0 {
        return None;
    }
    if len == 1 && seg.get_char(0) == '.' {
        proof {
            assert(seg@ =~= seq!['.']);
        }
        return None;
    }
    if len == 2 && seg.get_char(0) == '.' && seg.get_char(1) == '.' {
        proof {
            assert(seg@ =~= seq!['.', '.']);
        }
        return None;
    }
    proof {
        assert(seg@ != seq!['.'] && seg@ != seq!['.', '.']) by {
            if seg@ == seq!['.'] || seg@ == seq!['.', '.'] {
                assert(false);
            }
        }
    }
    Some(seg.to_owned())
}

/// Extract the extension of a path, as `extension_of` defines it.
pub fn extension(p: &str) -> (r: Option<String>)
    ensures
        match r {
            Some(e) => extension_of(p@) == Some(e@),
            None => extension_of(p@) is None,
        },
{
    let name = match file_name(p) {
        Some(name) => name,
        None => {
            return None;
        },
    };
    let ns = name.as_str();
    let n = ns.unicode_len();
    match find_last(ns, '.') {
        Some(j) => {
            if j > 0 {
                Some(ns.substring_char(j + 1, n).to_owned())
            } else {
                None
            }
        },
        None => None,
    }
}

/// A directory path joined with a file name, inserting a '/' separator
/// unless the directory already ends with one or is empty.
pub open spec fn joined_path(dir: Seq<char>, name: Seq<char>) -> Seq<char> {
    if dir.len() == 0 {
        name
    } else if dir[dir.len() - 1] == '/' {
        dir + name
    } else {
        dir + seq!['/'] + name
    }
}

/// Join a directory path with a file name, as `joined_path` defines it.
pub fn join_path(dir: &str, name: &str) -> (r: String)
    ensures
        r@ == joined_path(dir@, name@),
{
    let n = dir.unicode_len();
    if n == 0 {
        return name.to_owned();
    }
    let mut s = dir.to_owned();
    if s.as_str().get_char(n - 1) != '/' {
        s.append("/");
        proof {
            reveal_strlit("/");
            assert(s@ =~= dir@ + seq!['/']);
        }
    }
    s.append(name);
    proof {
        if dir@[dir@.len() - 1] != '/' {
            assert(s@ =~= dir@ + seq!['/'] + name@);
        }
    }
    s
}

/// The character for a single decimal digit.
pub open spec fn decimal_digit(d: int) -> char {
    if d == 0 {
        '0'
    } else if d == 1 {
        '1'
    } else if d == 2 {
        '2'
    } else if d == 3 {
        '3'
    } else if d == 4 {
        '4'
    } else if d == 5 {
        '5'
    } else if d == 6 {
        '6'
    } else if d == 7 {
        '7'
    } else if d == 8 {
        '8'
    } else {
        '9'
    }
}

/// The decimal rendering of a non-negative integer, without leading zeros.
pub open spec fn decimal_rep(k: int) -> Seq<char>
    recommends
        0 <= k,
    decreases k,
{
    if k < 10 {
        seq![decimal_digit(k)]
    } else {
        decimal_rep(k / 10).push(decimal_digit(k % 10))
    }
}

fn append_digit(s: &mut String, d: u64)
    requires
        d < 10,
    ensures
        final(s)@ == old(s)@.push(decimal_digit(d as int)),
{
    let digit: &str;
    if d == 0 {
        digit = "0";
        proof {
            reveal_strlit("0");
            assert(digit@ =~= seq![decimal_digit(d as int)]);
        }
    } else if d == 1 {
        digit = "1";
        proof {
            reveal_strlit("1");
            assert(digit@ =~= seq![decimal_digit(d as int)]);
        }
    } else if d == 2 {
        digit = "2";
        proof {
            reveal_strlit("2");
            assert(digit@ =~= seq![decimal_digit(d as int)]);
        }
    } else if d == 3 {
        digit = "3";
        proof {
            reveal_strlit("3");
            assert(digit@ =~= seq![decimal_digit(d as int)]);
        }
    } else if d == 4 {
        digit = "4";
        proof {
            reveal_strlit("4");
            assert(digit@ =~= seq![decimal_digit(d as int)]);
        }
    } else if d == 5 {
        digit = "5";
        proof {
            reveal_strlit("5");
            assert(digit@ =~= seq![decimal_digit(d as int)]);
        }
    } else if d == 6 {
        digit = "6";
        proof {
            reveal_strlit("6");
            assert(digit@ =~= seq![decimal_digit(d as int)]);
        }
    } else if d == 7 {
        digit = "7";
        proof {
            reveal_strlit("7");
            assert(digit@ =~= seq![decimal_digit(d as int)]);
        }
    } else if d == 8 {
        digit = "8";
        proof {
            reveal_strlit("8");
            assert(digit@ =~= seq![decimal_digit(d as int)]);
        }
    } else {
        digit = "9";
        proof {
            reveal_strlit("9");
            assert(digit@ =~= seq![decimal_digit(d as int)]);
        }
    }
    s.append(digit);
    proof {
        assert(old(s)@ + seq![decimal_digit(d as int)] =~= old(s)@.push(decimal_digit(d as int)));
    }
}

/// Append the decimal rendering of `k` to `s`.
pub fn append_decimal(s: &mut String, k: u64)
    ensures
        final(s)@ == old(s)@ + decimal_rep(k as int),
    decreases k,
{
    if k >= 10 {
        proof {
            assert(k as int / 10 < k as int) by (nonlinear_arith)
                requires
                    k >= 10,
            ;
        }
        append_decimal(s, k / 10);
        append_digit(s, k % 10);
        proof {
            assert(final(s)@ =~= old(s)@ + decimal_rep(k as int));
        }
    } else {
        append_digit(s, k);
        proof {
            assert(final(s)@ =~= old(s)@ + decimal_rep(k as int));
        }
    }
}

/// The candidate name probed at step `k` of sequential renaming: the base
/// path suffixed with "." and the decimal rendering of `k`.
pub open spec fn probe_rep(base: Seq<char>, k: int) -> Seq<char>
    recommends
        1 <= k,
{
    base + seq!['.'] + decimal_rep(k)
}

/// Build the candidate name probed at step `k` of sequential renaming.
pub fn probe_candidate(base: &str, k: u64) -> (r: String)
    ensures
        r@ == probe_rep(base@, k as int),
{
    let mut s = base.to_owned();
    s.append(".");
    proof {
        reveal_strlit(".");
        assert(s@ =~= base@ + seq!['.']);
    }
    append_decimal(&mut s, k);
    proof {
        assert(s@ =~= probe_rep(base@, k as int));
    }
    s
}

/// Lexicographic order on character sequences, by code point; the order of
/// bucket names used to break priority ties.
pub open spec fn lex_le(a: Seq<char>, b: Seq<char>) -> bool
    decreases a.len(),
{
    if a.len() == 0 {
        true
    } else if b.len() == 0 {
        false
    } else if a[0] == b[0] {
        lex_le(a.drop_first(), b.drop_first())
    } else {
        (a[0] as int) < (b[0] as int)
    }
}

/// `lex_le` is total: of any two texts, one precedes the other.
pub proof fn lemma_lex_le_total(a: Seq<char>, b: Seq<char>)
    ensures
        lex_le(a, b) || lex_le(b, a),
    decreases a.len(),
{
    if a.len() == 0 {
        assert(lex_le(a, b));
    } else if b.len() == 0 {
        assert(lex_le(b, a));
    } else if a[0] == b[0] {
        lemma_lex_le_total(a.drop_first(), b.drop_first());
        assert(lex_le(a, b) == lex_le(a.drop_first(), b.drop_first()));
        assert(lex_le(b, a) == lex_le(b.drop_first(), a.drop_first()));
    } else {
        assert(lex_le(a, b) == ((a[0] as int) < (b[0] as int)));
        assert(lex_le(b, a) == ((b[0] as int) < (a[0] as int)));
    }
}

/// `lex_le` is antisymmetric: texts that precede each other are equal.
pub proof fn lemma_lex_le_antisymmetric(a: Seq<char>, b: Seq<char>)
    requires
        lex_le(a, b),
        lex_le(b, a),
    ensures
        a == b,
    decreases a.len(),
{
    if a.len() == 0 {
        assert(b.len() == 0);
        assert(a =~= b);
    } else {
        assert(b.len() > 0);
        assert(a[0] == b[0]);
        lemma_lex_le_antisymmetric(a.drop_first(), b.drop_first());
        assert(a.drop_first().len() == a.len() - 1);
        assert(b.drop_first().len() == b.len() - 1);
        assert(a.len() == b.len());
        assert forall|i: int| 0 <= i < a.len() implies a[i] == b[i] by {
            if i > 0 {
                assert(a[i] == a.drop_first()[i - 1]);
                assert(b[i] == b.drop_first()[i - 1]);
            }
        }
        assert(a =~= b);
    }
}

/// Compare two texts under `lex_le`.
pub fn lex_le_str(a: &str, b: &str) -> (r: bool)
    ensures
        r == lex_le(a@, b@),
{
    let na = a.unicode_len();
    let nb = b.unicode_len();
    proof {
        assert(a@.subrange(0, na as int) =~= a@);
        assert(b@.subrange(0, nb as int) =~= b@);
    }
    let mut i: usize = 0;
    while i < na && i < nb
        invariant
            i <= na,
            i <= nb,
            na == a@.len(),
            nb == b@.len(),
            lex_le(a@, b@) == lex_le(
                a@.subrange(i as int, na as int),
                b@.subrange(i as int, nb as int),
            ),
        decreases na - i,
    {
        let ca = a.get_char(i);
        let cb = b.get_char(i);
        if ca != cb {
            proof {
                assert(a@.subrange(i as int, na as int)[0] == a@[i as int]);
                assert(b@.subrange(i as int, nb as int)[0] == b@[i as int]);
            }
            return (ca as u32) < (cb as u32);
        }
        proof {
            assert(a@.subrange(i as int, na as int)[0] == a@[i as int]);
            assert(b@.subrange(i as int, nb as int)[0] == b@[i as int]);
        }
        proof {
            assert(a@.subrange(i as int, na as int).drop_first() =~= a@.subrange(
                i + 1,
                na as int,
            ));
            assert(b@.subrange(i as int, nb as int).drop_first() =~= b@.subrange(
                i + 1,
                nb as int,
            ));
        }
        i = i + 1;
    }
    proof {
        if i == na {
            assert(a@.subrange(i as int, na as int).len() == 0);
        } else {
            assert(b@.subrange(i as int, nb as int).len() == 0);
            assert(a@.subrange(i as int, na as int).len() > 0);
        }
    }
    i == na
}

} // verus!
