//! Character-level text utilities: equality, trimming, splitting and joining
//! of comma-separated lists. All contracts are stated over `Seq<char>` views.
use vstd::prelude::*;

verus! {

/// The whitespace characters that `trim` removes from either end.
pub open spec fn is_space(c: char) -> bool {
    c == ' ' || c == '\t' || c == '\r' || c == '\n'
}

/// Mathematical trim: drop whitespace from both ends.
pub open spec fn trim_spec(s: Seq<char>) -> Seq<char>
    decreases s.len(),
{
    if s.len() == 0 {
        s
    } else if is_space(s[0]) {
        trim_spec(s.drop_first())
    } else if is_space(s.last()) {
        trim_spec(s.drop_last())
    } else {
        s
    }
}

/// Mathematical split on a separator character. Splitting the empty string
/// yields one empty piece, as `str::split` does.
pub open spec fn split_spec(s: Seq<char>, sep: char) -> Seq<Seq<char>>
    decreases s.len(),
{
    if s.len() == 0 {
        seq![Seq::<char>::empty()]
    } else {
        let rest = split_spec(s.drop_last(), sep);
        if s.last() == sep {
            rest.push(Seq::<char>::empty())
        } else {
            rest.update(rest.len() - 1, rest.last().push(s.last()))
        }
    }
}

/// Mathematical join with a separator.
pub open spec fn join_spec(l: Seq<Seq<char>>, sep: Seq<char>) -> Seq<char>
    decreases l.len(),
{
    if l.len() == 0 {
        Seq::<char>::empty()
    } else if l.len() == 1 {
        l[0]
    } else {
        l[0] + sep + join_spec(l.drop_first(), sep)
    }
}

/// The views of a sequence of strings.
pub open spec fn views(l: Seq<String>) -> Seq<Seq<char>> {
    l.map_values(|s: String| s@)
}

/// Character-by-character string equality.
pub fn str_eq(a: &str, b: &str) -> (r: bool)
    ensures
        r == (a@ == b@),
{
    let an = a.unicode_len();
    let bn = b.unicode_len();
    if an != bn {
        proof {
            assert(a@ != b@);
        }
        return false;
    }
    let mut i: usize = 0;
    while i < an
        invariant
            an == a@.len(),
            an == b@.len(),
            i <= an,
            forall|k: int| 0 <= k < i ==> a@[k] == b@[k],
        decreases an - i,
    {
        if a.get_char(i) != b.get_char(i) {
            proof {
                assert(a@[i as int] != b@[i as int]);
            }
            return false;
        }
        i = i + 1;
    }
    proof {
        assert(a@ =~= b@);
    }
    true
}

proof fn lemma_trim_subrange(s: Seq<char>, i: int, j: int)
    requires
        0 <= i <= j <= s.len(),
        forall|k: int| 0 <= k < i ==> is_space(s[k]),
        forall|k: int| j <= k < s.len() ==> is_space(s[k]),
        i < j ==> !is_space(s[i]) && !is_space(s[j - 1]),
    ensures
        trim_spec(s) == s.subrange(i, j),
    decreases s.len(),
{
    if i == 0 && j == s.len() {
        if s.len() == 0 {
            assert(trim_spec(s) =~= s.subrange(i, j));
        } else {
            if i < j {
                assert(!is_space(s[0]));
                assert(s.last() == s[s.len() - 1]);
                assert(!is_space(s.last()));
                assert(trim_spec(s) == s);
                assert(s =~= s.subrange(0, s.len() as int));
            } else {
                assert(false);
            }
        }
    } else if i > 0 {
        assert(is_space(s[0]));
        let t = s.drop_first();
        assert(trim_spec(s) == trim_spec(t));
        assert(t =~= s.subrange(1, s.len() as int));
        lemma_trim_subrange(t, i - 1, j - 1);
        assert(t.subrange(i - 1, j - 1) =~= s.subrange(i, j));
    } else {
        // i == 0 and j < s.len()
        assert(j < s.len());
        if i == j {
            // every character is whitespace
            assert(is_space(s[0]));
            let t = s.drop_first();
            assert(trim_spec(s) == trim_spec(t));
            assert(t =~= s.subrange(1, s.len() as int));
            lemma_trim_subrange(t, 0, 0);
            assert(t.subrange(0, 0) =~= s.subrange(0, 0));
        } else {
            assert(!is_space(s[0]));
            assert(s.last() == s[s.len() - 1]);
            assert(is_space(s.last()));
            let t = s.drop_last();
            assert(trim_spec(s) == trim_spec(t));
            assert(t =~= s.subrange(0, s.len() - 1));
            lemma_trim_subrange(t, i, j);
            assert(t.subrange(i, j) =~= s.subrange(i, j));
        }
    }
}

/// Drop the whitespace characters from both ends of `s`.
pub fn trim(s: &str) -> (r: &str)
    ensures
        r@ == trim_spec(s@),
{
    let n = s.unicode_len();
    let mut i: usize = 0;
    while i < n && is_space_exec(s.get_char(i))
        invariant
            n == s@.len(),
            i <= n,
            forall|k: int| 0 <= k < i ==> is_space(s@[k]),
        decreases n - i,
    {
        i = i + 1;
    }
    let mut j: usize = n;
    while j > i && is_space_exec(s.get_char(j - 1))
        invariant
            n == s@.len(),
            i <= j <= n,
            forall|k: int| j <= k < n ==> is_space(s@[k]),
        decreases j,
    {
        j = j - 1;
    }
    proof {
        if i < j {
            assert(!is_space(s@[i as int]));
            assert(!is_space(s@[j - 1]));
        }
        lemma_trim_subrange(s@, i as int, j as int);
    }
    s.substring_char(i, j)
}

/// Whether `c` counts as whitespace.
pub fn is_space_exec(c: char) -> (r: bool)
    ensures
        r == is_space(c),
{
    c == ' ' || c == '\t' || c == '\r' || c == '\n'
}

/// Split `s` at every occurrence of `sep`.
pub fn split_on(s: &str, sep: char) -> (r: Vec<String>)
    ensures
        views(r@) == split_spec(s@, sep),
        r@.len() > 0,
{
    let n = s.unicode_len();
    let mut pieces: Vec<String> = Vec::new();
    let mut cur: String = String::new();
    let mut i: usize = 0;
    proof {
        assert(s@.take(0) =~= Seq::<char>::empty());
        assert(views(pieces@).push(cur@) =~= split_spec(s@.take(0), sep));
    }
    while i < n
        invariant
            n == s@.len(),
            i <= n,
            views(pieces@).push(cur@) == split_spec(s@.take(i as int), sep),
        decreases n - i,
    {
        let c = s.get_char(i);
        let ghost prev = split_spec(s@.take(i as int), sep);
        let ghost prev_pieces = views(pieces@);
        let ghost prev_cur = cur@;
        proof {
            assert(s@.take(i + 1).drop_last() =~= s@.take(i as int));
            assert(s@.take(i + 1).last() == s@[i as int]);
        }
        if c == sep {
            pieces.push(cur);
            cur = String::new();
            proof {
                assert(views(pieces@) =~= prev_pieces.push(prev_cur));
                assert(views(pieces@).push(cur@) =~= split_spec(s@.take(i + 1), sep));
            }
        } else {
            let piece = s.substring_char(i, i + 1);
            proof {
                assert(piece@ =~= seq![s@[i as int]]);
            }
            cur.append(piece);
            proof {
                assert(cur@ =~= prev_cur.push(s@[i as int]));
                assert(prev.last() == prev_cur);
                assert(views(pieces@).push(cur@) =~= prev.update(
                    prev.len() - 1,
                    prev.last().push(s@[i as int]),
                ));
            }
        }
        i = i + 1;
    }
    pieces.push(cur);
    proof {
        assert(s@.take(n as int) =~= s@);
        assert(views(pieces@) =~= split_spec(s@, sep));
    }
    pieces
}

proof fn lemma_join_push(l: Seq<Seq<char>>, x: Seq<char>, sep: Seq<char>)
    requires
        l.len() > 0,
    ensures
        join_spec(l.push(x), sep) == join_spec(l, sep) + sep + x,
    decreases l.len(),
{
    if l.len() == 1 {
        assert(l.push(x).drop_first() =~= seq![x]);
        assert(join_spec(l.push(x), sep) == l.push(x)[0] + sep + join_spec(seq![x], sep));
        assert(l.push(x)[0] == l[0]);
        assert(join_spec(seq![x], sep) == x);
        assert(join_spec(l, sep) == l[0]);
    } else {
        lemma_join_push(l.drop_first(), x, sep);
        assert(l.push(x).drop_first() =~= l.drop_first().push(x));
        assert(join_spec(l.push(x), sep) == l[0] + sep + join_spec(l.drop_first().push(x), sep));
        assert(join_spec(l, sep) + sep + x =~= l[0] + sep + (join_spec(l.drop_first(), sep) + sep
            + x));
    }
}

/// Join the strings of `l` with the separator ", ".
pub fn join_commas(l: &Vec<String>) -> (r: String)
    ensures
        r@ == join_spec(views(l@), sep_view()),
{
    let mut out = String::new();
    let mut k: usize = 0;
    proof {
        reveal_strlit(", ");
        assert(views(l@).take(0) =~= Seq::<Seq<char>>::empty());
    }
    while k < l.len()
        invariant
            k <= l@.len(),
            out@ == join_spec(views(l@).take(k as int), sep_view()),
        decreases l@.len() - k,
    {
        if k > 0 {
            out.append(", ");
            proof {
                reveal_strlit(", ");
            }
        }
        out.append(l[k].as_str());
        proof {
            let t = views(l@).take(k as int);
            let t1 = views(l@).take(k + 1);
            assert(t1 =~= t.push(l@[k as int]@));
            if k > 0 {
                lemma_join_push(t, l@[k as int]@, sep_view());
            } else {
                assert(t1 =~= seq![l@[0]@]);
            }
        }
        k = k + 1;
    }
    proof {
        assert(views(l@).take(l@.len() as int) =~= views(l@));
    }
    out
}

/// The view of the ", " separator.
pub open spec fn sep_view() -> Seq<char> {
    seq![',', ' ']
}

/// Trim every piece of a list.
pub open spec fn trim_all(l: Seq<Seq<char>>) -> Seq<Seq<char>> {
    l.map_values(|p: Seq<char>| trim_spec(p))
}

proof fn lemma_split_append_no_comma(a: Seq<char>, x: Seq<char>)
    requires
        !x.contains(','),
    ensures
        split_spec(a + x, ',') == split_spec(a, ',').update(
            split_spec(a, ',').len() - 1,
            split_spec(a, ',').last() + x,
        ),
        split_spec(a + x, ',').len() == split_spec(a, ',').len(),
    decreases x.len(),
{
    let s = split_spec(a, ',');
    assert(s.len() > 0) by {
        lemma_split_len(a);
    }
    if x.len() == 0 {
        assert(a + x =~= a);
        assert(s.update(s.len() - 1, s.last() + x) =~= s) by {
            assert(s.last() + x =~= s.last());
        }
    } else {
        let x1 = x.drop_last();
        let c = x.last();
        assert(c != ',') by {
            assert(x[x.len() - 1] == c);
        }
        assert(!x1.contains(',')) by {
            assert(forall|k: int|
                0 <= k < x1.len() ==> x1[k] == x[k] && #[trigger] x.contains(x[k]));
        }
        lemma_split_append_no_comma(a, x1);
        let t = split_spec(a + x1, ',');
        assert((a + x).drop_last() =~= a + x1);
        assert((a + x).last() == c);
        assert((a + x).len() > 0);
        assert(split_spec(a + x, ',') == t.update(t.len() - 1, t.last().push(c)));
        assert(t.last() == s.last() + x1);
        assert(t.update(t.len() - 1, t.last().push(c)) =~= s.update(s.len() - 1, s.last() + x))
            by {
            assert((s.last() + x1).push(c) =~= s.last() + x);
        }
    }
}

proof fn lemma_split_len(a: Seq<char>)
    ensures
        split_spec(a, ',').len() > 0,
    decreases a.len(),
{
    if a.len() > 0 {
        lemma_split_len(a.drop_last());
    }
}

proof fn lemma_split_no_comma(x: Seq<char>)
    requires
        !x.contains(','),
    ensures
        split_spec(x, ',') == seq![x],
{
    lemma_split_append_no_comma(Seq::<char>::empty(), x);
    assert(Seq::<char>::empty() + x =~= x);
    assert(split_spec(Seq::<char>::empty(), ',') == seq![Seq::<char>::empty()]);
    assert(seq![Seq::<char>::empty()].update(0, Seq::<char>::empty() + x) =~= seq![x]);
}

proof fn lemma_split_append_sep(a: Seq<char>)
    ensures
        split_spec(a + seq![','], ',') == split_spec(a, ',').push(Seq::<char>::empty()),
{
    assert((a + seq![',']).drop_last() =~= a);
    assert((a + seq![',']).last() == ',');
}

proof fn lemma_trim_prepend_space(x: Seq<char>)
    ensures
        trim_spec(seq![' '] + x) == trim_spec(x),
{
    let s = seq![' '] + x;
    assert(s.len() > 0);
    assert(is_space(s[0]));
    assert(s.drop_first() =~= x);
}

/// Splitting a joined list on commas and trimming each piece reproduces the
/// list, provided every piece is already trimmed and contains no comma. This is
/// the round trip between writing an enabled-module list to the configuration
/// source and reading it back.
pub proof fn lemma_split_join_round_trip(l: Seq<Seq<char>>)
    requires
        l.len() > 0,
        forall|k: int|
            0 <= k < l.len() ==> trim_spec(#[trigger] l[k]) == l[k] && !l[k].contains(','),
    ensures
        trim_all(split_spec(join_spec(l, sep_view()), ',')) == l,
    decreases l.len(),
{
    if l.len() == 1 {
        assert(join_spec(l, sep_view()) == l[0]);
        lemma_split_no_comma(l[0]);
        assert(trim_all(seq![l[0]]) =~= seq![trim_spec(l[0])]);
        assert(trim_all(split_spec(join_spec(l, sep_view()), ',')) =~= l);
    } else {
        let l1 = l.drop_last();
        let x = l.last();
        assert(forall|k: int|
            0 <= k < l1.len() ==> l1[k] == l[k] && trim_spec(#[trigger] l1[k]) == l1[k]
                && !l1[k].contains(','));
        lemma_split_join_round_trip(l1);
        let j1 = join_spec(l1, sep_view());
        assert(l1.push(x) =~= l);
        lemma_join_push(l1, x, sep_view());
        let j = join_spec(l, sep_view());
        assert(j == j1 + sep_view() + x);
        let sx = seq![' '] + x;
        assert(j =~= (j1 + seq![',']) + sx);
        lemma_split_append_sep(j1);
        assert(!sx.contains(',')) by {
            assert(forall|k: int| 0 <= k < x.len() ==> sx[k + 1] == x[k]);
            if sx.contains(',') {
                let k = choose|k: int| 0 <= k < sx.len() && sx[k] == ',';
                assert(k > 0);
                assert(x[k - 1] == ',');
                assert(x.contains(','));
                assert(!x.contains(','));
            }
        }
        lemma_split_append_no_comma(j1 + seq![','], sx);
        let s1 = split_spec(j1, ',');
        assert(split_spec(j, ',') =~= s1.push(sx)) by {
            let a = s1.push(Seq::<char>::empty());
            assert(split_spec(j, ',') == a.update(a.len() - 1, a.last() + sx));
            assert(a.last() + sx =~= sx);
        }
        lemma_trim_prepend_space(x);
        assert(trim_all(s1.push(sx)) =~= trim_all(s1).push(trim_spec(sx)));
        assert(trim_spec(sx) == x);
        assert(trim_all(split_spec(j, ',')) =~= l);
    }
}

} // verus!
