use vstd::prelude::*;
use vstd::string::*;

verus! {

/// Character-by-character string equality: true exactly when the two views
/// are the same sequence of characters.
pub fn str_eq(a: &str, b: &str) -> (r: bool)
    ensures
        r == (a@ == b@),
{
    let n = a.unicode_len();
    if n != b.unicode_len() {
        return false;
    }
    for i in 0..n
        invariant
            n == a@.len(),
            n == b@.len(),
            forall|j: int| 0 <= j < i ==> a@[j] == b@[j],
    {
        if a.get_char(i) != b.get_char(i) {
            return false;
        }
    }
    proof {
        assert(a@ =~= b@);
    }
    true
}

/// Map an ASCII uppercase letter to its lowercase form; leave every other
/// character unchanged.
pub open spec fn lower_char(c: char) -> char {
    match c {
        'A' => 'a',
        'B' => 'b',
        'C' => 'c',
        'D' => 'd',
        'E' => 'e',
        'F' => 'f',
        'G' => 'g',
        'H' => 'h',
        'I' => 'i',
        'J' => 'j',
        'K' => 'k',
        'L' => 'l',
        'M' => 'm',
        'N' => 'n',
        'O' => 'o',
        'P' => 'p',
        'Q' => 'q',
        'R' => 'r',
        'S' => 's',
        'T' => 't',
        'U' => 'u',
        'V' => 'v',
        'W' => 'w',
        'X' => 'x',
        'Y' => 'y',
        'Z' => 'z',
        _ => c,
    }
}

/// The canonical lowercase form of a character sequence: every ASCII
/// uppercase letter mapped to its lowercase form.
pub open spec fn lower(s: Seq<char>) -> Seq<char> {
    s.map_values(|c: char| lower_char(c))
}

/// Lowercasing is idempotent: the lowercase form is a canonical form, and
/// normalizing an already normalized sequence changes nothing.
pub proof fn lemma_lower_idempotent(s: Seq<char>)
    ensures
        lower(lower(s)) == lower(s),
{
    assert forall|i: int| 0 <= i < s.len() implies lower_char(lower_char(s[i])) == lower_char(
        s[i],
    ) by {}
    assert(lower(lower(s)) =~= lower(s));
}

/// Two character sequences have the same lowercase form exactly when they
/// agree up to letter case; so comparing lowercase forms is a
/// case-insensitive comparison.
pub proof fn lemma_lower_case_insensitive(a: Seq<char>, b: Seq<char>)
    ensures
        (lower(a) == lower(b)) <==> (a.len() == b.len() && (forall|i: int|
            0 <= i < a.len() ==> lower_char(a[i]) == lower_char(b[i]))),
{
    if a.len() == b.len() && (forall|i: int|
        0 <= i < a.len() ==> lower_char(a[i]) == lower_char(b[i])) {
        assert(lower(a) =~= lower(b));
    }
    if lower(a) == lower(b) {
        assert(lower(a).len() == a.len());
        assert(lower(b).len() == b.len());
        assert forall|i: int| 0 <= i < a.len() implies lower_char(a[i]) == lower_char(b[i]) by {
            assert(0 <= i < b.len());
            assert(lower(a)[i] == lower_char(a[i]));
            assert(lower(b)[i] == lower_char(b[i]));
        }
    }
}

/// For an ASCII uppercase letter, the one-character string holding its
/// lowercase form; `None` for any character that lowercasing leaves alone.
fn upper_to_lower_str(c: char) -> (r: Option<&'static str>)
    ensures
        match r {
            Some(t) => t@ == seq![lower_char(c)],
            None => lower_char(c) == c,
        },
{
    let r: Option<&'static str> = match c {
        'A' => Some("a"),
        'B' => Some("b"),
        'C' => Some("c"),
        'D' => Some("d"),
        'E' => Some("e"),
        'F' => Some("f"),
        'G' => Some("g"),
        'H' => Some("h"),
        'I' => Some("i"),
        'J' => Some("j"),
        'K' => Some("k"),
        'L' => Some("l"),
        'M' => Some("m"),
        'N' => Some("n"),
        'O' => Some("o"),
        'P' => Some("p"),
        'Q' => Some("q"),
        'R' => Some("r"),
        'S' => Some("s"),
        'T' => Some("t"),
        'U' => Some("u"),
        'V' => Some("v"),
        'W' => Some("w"),
        'X' => Some("x"),
        'Y' => Some("y"),
        'Z' => Some("z"),
        _ => None,
    };
    proof {
        reveal_strlit("a");
        reveal_strlit("b");
        reveal_strlit("c");
        reveal_strlit("d");
        reveal_strlit("e");
        reveal_strlit("f");
        reveal_strlit("g");
        reveal_strlit("h");
        reveal_strlit("i");
        reveal_strlit("j");
        reveal_strlit("k");
        reveal_strlit("l");
        reveal_strlit("m");
        reveal_strlit("n");
        reveal_strlit("o");
        reveal_strlit("p");
        reveal_strlit("q");
        reveal_strlit("r");
        reveal_strlit("s");
        reveal_strlit("t");
        reveal_strlit("u");
        reveal_strlit("v");
        reveal_strlit("w");
        reveal_strlit("x");
        reveal_strlit("y");
        reveal_strlit("z");
        if r is Some {
            assert(r->0@ =~= seq![lower_char(c)]);
        }
    }
    r
}

/// The canonical lowercase form of a string, as `lower` describes.
pub fn lowercase(s: &str) -> (r: String)
    ensures
        r@ == lower(s@),
{
    let n = s.unicode_len();
    let mut out = String::new();
    proof {
        assert(out@ =~= lower(s@.take(0)));
    }
    for i in 0..n
        invariant
            n == s@.len(),
            out@ == lower(s@.take(i as int)),
    {
        let c = s.get_char(i);
        match upper_to_lower_str(c) {
            Some(t) => out.append(t),
            None => out.append(s.substring_char(i, i + 1)),
        }
        proof {
            assert(out@ =~= lower(s@.take(i + 1)));
        }
    }
    proof {
        assert(s@.take(n as int) =~= s@);
    }
    out
}

/// Case-insensitive string equality: true exactly when the two views agree
/// up to ASCII letter case, that is, when their lowercase forms are equal.
pub fn str_eq_ignore_case(a: &str, b: &str) -> (r: bool)
    ensures
        r == (lower(a@) == lower(b@)),
{
    let la = lowercase(a);
    let lb = lowercase(b);
    str_eq(la.as_str(), lb.as_str())
}

/// The parts joined with a comma and a space between each two neighbours.
pub open spec fn comma_joined(parts: Seq<Seq<char>>) -> Seq<char>
    decreases parts.len(),
{
    if parts.len() == 0 {
        Seq::empty()
    } else if parts.len() == 1 {
        parts[0]
    } else {
        comma_joined(parts.drop_last()) + ", "@ + parts.last()
    }
}

/// Join the names with ", " between each two neighbours, as `comma_joined`
/// describes.
pub fn join_comma(names: &Vec<String>) -> (r: String)
    ensures
        r@ == comma_joined(names@.map_values(|n: String| n@)),
{
    let ghost parts = names@.map_values(|n: String| n@);
    let mut out = String::new();
    proof {
        assert(out@ =~= comma_joined(parts.take(0)));
    }
    for i in 0..names.len()
        invariant
            parts == names@.map_values(|n: String| n@),
            out@ == comma_joined(parts.take(i as int)),
    {
        if i > 0 {
            out.append(", ");
        }
        out.append(names[i].as_str());
        proof {
            assert(parts.take(i + 1).drop_last() =~= parts.take(i as int));
            assert(out@ =~= comma_joined(parts.take(i + 1)));
        }
    }
    proof {
        assert(parts.take(names@.len() as int) =~= parts);
    }
    out
}

/// The index of the last '.' in the sequence, if any.
pub open spec fn last_dot(s: Seq<char>) -> Option<int>
    decreases s.len(),
{
    if s.len() == 0 {
        None
    } else if s[s.len() - 1] == '.' {
        Some(s.len() - 1)
    } else {
        last_dot(s.drop_last())
    }
}

/// Split a file name at its last '.' into stem and extension, following the
/// usual rule for file names: a '.' in first position marks no extension (a
/// leading-dot name has none), and a name without a '.' has none.
pub fn split_last_dot(name: &str) -> (r: Option<(String, String)>)
    ensures
        (match last_dot(name@) {
            Some(i) => (match r {
                Some(p) => i >= 1 && p.0@ == name@.take(i) && p.1@ == name@.skip(i + 1),
                None => i == 0,
            }),
            None => r is None,
        }),
{
    let n = name.unicode_len();
    let mut i: usize = n;
    proof {
        assert(name@.take(n as int) =~= name@);
    }
    while i > 0
        invariant
            n == name@.len(),
            i <= n,
            last_dot(name@) == last_dot(name@.take(i as int)),
            forall|j: int| i <= j < n ==> name@[j] != '.',
        decreases i,
    {
        if name.get_char(i - 1) == '.' {
            proof {
                assert(name@.take(i as int)[i - 1] == name@[i - 1]);
                assert(last_dot(name@.take(i as int)) == Some(i - 1));
            }
            if i - 1 == 0 {
                return None;
            }
            let stem = name.substring_char(0, i - 1);
            let ext = name.substring_char(i, n);
            proof {
                assert(stem@ =~= name@.take(i - 1));
                assert(ext@ =~= name@.skip(i as int));
            }
            return Some((stem.to_owned(), ext.to_owned()));
        }
        proof {
            let t = name@.take(i as int);
            assert(t[t.len() - 1] == name@[i - 1]);
            assert(t.drop_last() =~= name@.take(i - 1));
        }
        i = i - 1;
    }
    proof {
        assert(name@.take(0) =~= Seq::<char>::empty());
    }
    None
}

/// The pattern occurs in `text` at position `i`.
pub open spec fn occurs_at(text: Seq<char>, pat: Seq<char>, i: int) -> bool {
    0 <= i && i + pat.len() <= text.len() && text.subrange(i, i + pat.len() as int) == pat
}

/// `text` with every occurrence of `pat` replaced by `sub`: the text is
/// scanned left to right and matches do not overlap. An empty pattern
/// matches nothing, so the text is returned unchanged.
pub open spec fn replaced(text: Seq<char>, pat: Seq<char>, sub: Seq<char>) -> Seq<char>
    decreases text.len(),
{
    if pat.len() == 0 || text.len() < pat.len() {
        text
    } else if text.subrange(0, pat.len() as int) == pat {
        sub + replaced(text.skip(pat.len() as int), pat, sub)
    } else {
        seq![text[0]] + replaced(text.skip(1), pat, sub)
    }
}

/// The pattern occurs in `text` at position `i` (an exact, character-wise
/// comparison).
fn matches_at(text: &str, pat: &str, i: usize) -> (r: bool)
    requires
        i + pat@.len() <= text@.len(),
    ensures
        r == occurs_at(text@, pat@, i as int),
{
    let tlen = text.unicode_len();
    let plen = pat.unicode_len();
    for k in 0..plen
        invariant
            plen == pat@.len(),
            tlen == text@.len(),
            i + plen <= tlen,
            forall|j: int| 0 <= j < k ==> text@[i + j] == pat@[j],
    {
        if text.get_char(i + k) != pat.get_char(k) {
            proof {
                assert(text@.subrange(i as int, i + plen as int)[k as int] == text@[i + k]);
            }
            return false;
        }
    }
    proof {
        assert(text@.subrange(i as int, i + plen as int) =~= pat@);
    }
    true
}

/// Replace every occurrence of `pat` in `text` with `sub`, scanning left to
/// right without overlap, as `replaced` describes.
pub fn replace_all(text: &str, pat: &str, sub: &str) -> (r: String)
    ensures
        r@ == replaced(text@, pat@, sub@),
{
    let tlen = text.unicode_len();
    let plen = pat.unicode_len();
    if plen == 0 {
        return text.to_owned();
    }
    let mut out = String::new();
    let mut i: usize = 0;
    proof {
        assert(text@.skip(0) =~= text@);
        assert(out@ + replaced(text@, pat@, sub@) =~= replaced(text@, pat@, sub@));
    }
    while i < tlen
        invariant
            plen == pat@.len(),
            tlen == text@.len(),
            plen > 0,
            i <= tlen,
            out@ + replaced(text@.skip(i as int), pat@, sub@) == replaced(text@, pat@, sub@),
        decreases tlen - i,
    {
        let ghost rest = text@.skip(i as int);
        let ghost out0 = out@;
        if plen <= tlen - i && matches_at(text, pat, i) {
            out.append(sub);
            proof {
                assert(rest.subrange(0, plen as int) =~= text@.subrange(
                    i as int,
                    i + plen as int,
                ));
                assert(rest.skip(plen as int) =~= text@.skip(i + plen as int));
                assert(replaced(rest, pat@, sub@) == sub@ + replaced(
                    text@.skip(i + plen as int),
                    pat@,
                    sub@,
                ));
                assert(out@ + replaced(text@.skip(i + plen as int), pat@, sub@) =~= out0
                    + replaced(rest, pat@, sub@));
            }
            i = i + plen;
        } else {
            let piece = text.substring_char(i, i + 1);
            out.append(piece);
            proof {
                assert(rest[0] == text@[i as int]);
                assert(rest.skip(1) =~= text@.skip(i + 1));
                if rest.len() >= plen {
                    assert(rest.subrange(0, plen as int) =~= text@.subrange(
                        i as int,
                        i + plen as int,
                    ));
                }
                assert(piece@ =~= seq![text@[i as int]]);
                assert(replaced(rest, pat@, sub@) == seq![rest[0]] + replaced(
                    rest.skip(1),
                    pat@,
                    sub@,
                ));
                assert(out@ + replaced(text@.skip(i + 1), pat@, sub@) =~= out0 + replaced(
                    rest,
                    pat@,
                    sub@,
                ));
            }
            i = i + 1;
        }
    }
    proof {
        assert(text@.skip(tlen as int).len() == 0);
        assert(replaced(text@.skip(tlen as int), pat@, sub@) == text@.skip(tlen as int));
        assert(out@ =~= out@ + text@.skip(tlen as int));
    }
    out
}

} // verus!
