//! Splitting a text on a separator.
use vstd::prelude::*;
use vstd::std_specs::iter::IteratorSpec;

verus! {

/// True when `sep` occurs in `s` starting at position `i`.
pub open spec fn occurs_at(s: Seq<char>, sep: Seq<char>, i: int) -> bool {
    0 <= i && i + sep.len() <= s.len() && s.subrange(i, i + sep.len()) == sep
}

/// The pieces of `s` from `start` on, cut at each occurrence of a non-empty
/// `sep` found scanning from `i` on; an occurrence is taken as soon as it is
/// found, so occurrences never overlap.
pub open spec fn pieces_from(s: Seq<char>, sep: Seq<char>, start: int, i: int) -> Seq<Seq<char>>
    decreases s.len() - i,
{
    if sep.len() == 0 || i < 0 || i + sep.len() > s.len() {
        seq![s.subrange(start, s.len() as int)]
    } else if occurs_at(s, sep, i) {
        seq![s.subrange(start, i)] + pieces_from(s, sep, i + sep.len(), i + sep.len())
    } else {
        pieces_from(s, sep, start, i + 1)
    }
}

/// The pieces that splitting `s` on `sep` gives: none for an empty `s`; for
/// an empty `sep`, an empty piece, each character on its own, and another
/// empty piece; otherwise the texts between the occurrences of `sep`, taken
/// from left to right without overlap.
pub open spec fn split_pieces(s: Seq<char>, sep: Seq<char>) -> Seq<Seq<char>> {
    if s.len() == 0 {
        Seq::empty()
    } else if sep.len() == 0 {
        seq![Seq::<char>::empty()] + s.map(|_i: int, c: char| seq![c]) + seq![Seq::<char>::empty()]
    } else {
        pieces_from(s, sep, 0, 0)
    }
}

/// The characters of `s`, in order.
fn chars_of(s: &str) -> (r: Vec<char>)
    ensures
        r@ == s@,
{
    let mut it = s.chars();
    let mut r: Vec<char> = Vec::new();
    loop
        invariant
            r@ + it.remaining() == s@,
            it.decrease() is Some,
        decreases it.decrease()->0,
    {
        let ghost before = it.remaining();
        match it.next() {
            Some(c) => {
                r.push(c);
                assert(r@ + it.remaining() =~= s@) by {
                    assert(before =~= seq![c] + before.drop_first());
                }
            },
            None => {
                assert(r@ =~= s@);
                return r;
            },
        }
    }
}

/// Whether `sep` occurs in `cs` at position `i`.
fn occurs_in_at(cs: &Vec<char>, sep: &Vec<char>, i: usize) -> (r: bool)
    requires
        i + sep@.len() <= cs@.len(),
    ensures
        r == occurs_at(cs@, sep@, i as int),
{
    let n = cs.len();
    let mut j: usize = 0;
    while j < sep.len()
        invariant
            n == cs@.len(),
            i + sep@.len() <= cs@.len(),
            j <= sep@.len(),
            forall|k: int| 0 <= k < j ==> cs@[i + k] == sep@[k],
        decreases sep@.len() - j,
    {
        if cs[i + j] != sep[j] {
            assert(cs@.subrange(i as int, i + sep@.len())[j as int] != sep@[j as int]);
            return false;
        }
        j = j + 1;
    }
    assert(cs@.subrange(i as int, i + sep@.len()) =~= sep@);
    true
}

/// Splits `s` on every non-overlapping occurrence of `sep`, from left to right.
/// An empty `s` gives no pieces; a `sep` that does not occur gives `s` alone.
pub fn splitx<'a>(s: &'a str, sep: &str) -> (r: Vec<&'a str>)
    ensures
        r@.map_values(|p: &str| p@) == split_pieces(s@, sep@),
{
    let ghost want = split_pieces(s@, sep@);
    let mut out: Vec<&'a str> = Vec::new();
    if s.is_empty() {
        assert(out@.map_values(|p: &str| p@) =~= want);
        return out;
    }
    let cs = chars_of(s);
    let ps = chars_of(sep);
    let n = cs.len();
    let m = ps.len();
    if m == 0 {
        let first = s.substring_char(0, 0);
        out.push(first);
        assert(first@ =~= Seq::<char>::empty());
        assert(out@.map_values(|p: &str| p@) =~= seq![Seq::<char>::empty()]);
        assert(s@.take(0).map(|_i: int, c: char| seq![c]) =~= Seq::<Seq<char>>::empty());
        let mut k: usize = 0;
        while k < n
            invariant
                n == s@.len(),
                k <= n,
                out@.map_values(|p: &str| p@) =~= seq![Seq::<char>::empty()] + s@.take(
                    k as int,
                ).map(|_i: int, c: char| seq![c]),
            decreases n - k,
        {
            let piece = s.substring_char(k, k + 1);
            let ghost before = out@.map_values(|p: &str| p@);
            out.push(piece);
            assert(out@.map_values(|p: &str| p@) =~= before.push(piece@));
            assert(piece@ =~= seq![s@[k as int]]);
            assert(s@.take(k + 1).map(|_i: int, c: char| seq![c]) =~= s@.take(k as int).map(
                |_i: int, c: char| seq![c],
            ).push(seq![s@[k as int]]));
            k = k + 1;
        }
        let last = s.substring_char(n, n);
        let ghost before = out@.map_values(|p: &str| p@);
        out.push(last);
        assert(last@ =~= Seq::<char>::empty());
        assert(out@.map_values(|p: &str| p@) =~= before.push(last@));
        assert(s@.take(n as int) =~= s@);
        assert(out@.map_values(|p: &str| p@) =~= want);
        return out;
    }
    let mut start: usize = 0;
    let mut i: usize = 0;
    while m <= n && i <= n - m
        invariant
            cs@ == s@,
            ps@ == sep@,
            n == s@.len(),
            m == sep@.len(),
            m > 0,
            start <= i,
            i <= n,
            want == pieces_from(s@, sep@, 0, 0),
            want == out@.map_values(|p: &str| p@) + pieces_from(s@, sep@, start as int, i as int),
        decreases n - i,
    {
        if occurs_in_at(&cs, &ps, i) {
            let piece = s.substring_char(start, i);
            let ghost before = out@.map_values(|p: &str| p@);
            out.push(piece);
            assert(out@.map_values(|p: &str| p@) =~= before.push(piece@));
            assert(before + pieces_from(s@, sep@, start as int, i as int) =~= before.push(piece@)
                + pieces_from(s@, sep@, (i + m) as int, (i + m) as int));
            i = i + m;
            start = i;
        } else {
            i = i + 1;
        }
    }
    let piece = s.substring_char(start, n);
    let ghost before = out@.map_values(|p: &str| p@);
    out.push(piece);
    assert(out@.map_values(|p: &str| p@) =~= before.push(piece@));
    assert(before + pieces_from(s@, sep@, start as int, i as int) =~= before.push(piece@));
    out
}

/// Scanning from `i` on finds no occurrence of a separator absent from `s`,
/// so the rest of `s` from `start` stays one piece.
proof fn lemma_absent_from(s: Seq<char>, sep: Seq<char>, start: int, i: int)
    requires
        forall|j: int| !#[trigger] occurs_at(s, sep, j),
    ensures
        pieces_from(s, sep, start, i) == seq![s.subrange(start, s.len() as int)],
    decreases s.len() - i,
{
    if !(sep.len() == 0 || i < 0 || i + sep.len() > s.len()) {
        assert(!occurs_at(s, sep, i));
        lemma_absent_from(s, sep, start, i + 1);
    }
}

/// Splitting a non-empty text on a non-empty separator that does not occur
/// in it gives the whole text as the only piece.
pub proof fn lemma_absent_separator_whole(s: Seq<char>, sep: Seq<char>)
    requires
        s.len() > 0,
        sep.len() > 0,
        forall|j: int| !#[trigger] occurs_at(s, sep, j),
    ensures
        split_pieces(s, sep) == seq![s],
{
    lemma_absent_from(s, sep, 0, 0);
    assert(s.subrange(0, s.len() as int) =~= s);
}

} // verus!
