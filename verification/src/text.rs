//! Small helpers on strings, stated over their character sequences.

use vstd::prelude::*;

verus! {

/// `n` spaces.
pub open spec fn spaces(n: nat) -> Seq<char> {
    Seq::new(n, |i: int| ' ')
}

/// `s` followed by as many spaces as it takes to reach `width` characters;
/// `s` itself where it is already that long.
pub open spec fn padded(s: Seq<char>, width: nat) -> Seq<char> {
    if s.len() >= width {
        s
    } else {
        s + spaces((width - s.len()) as nat)
    }
}

/// The parts one after another, with `sep` between each two neighbours.
pub open spec fn joined(parts: Seq<Seq<char>>, sep: Seq<char>) -> Seq<char>
    decreases parts.len(),
{
    if parts.len() == 0 {
        Seq::empty()
    } else if parts.len() == 1 {
        parts[0]
    } else {
        joined(parts.drop_last(), sep) + sep + parts.last()
    }
}

/// `a` and `b` agree on their first `k` characters, and there `a` ends while
/// `b` goes on, or `a` has the smaller character.
pub open spec fn parts_at(a: Seq<char>, b: Seq<char>, k: int) -> bool {
    &&& 0 <= k <= a.len()
    &&& k < b.len()
    &&& forall|j: int| 0 <= j < k ==> a[j] == b[j]
    &&& (k < a.len() ==> a[k] < b[k])
}

/// `a` comes strictly before `b` in dictionary order by character code,
/// which is the order of `str`.
pub open spec fn precedes(a: Seq<char>, b: Seq<char>) -> bool {
    exists|k: int| parts_at(a, b, k)
}

/// Each element comes strictly before the next: sorted, and nothing twice.
pub open spec fn ascending(names: Seq<Seq<char>>) -> bool {
    forall|i: int, j: int|
        0 <= i < j < names.len() ==> precedes(#[trigger] names[i], #[trigger] names[j])
}

/// No string comes before itself, and of two strings at most one comes
/// before the other.
pub proof fn lemma_precedes_asymmetric(a: Seq<char>, b: Seq<char>)
    requires
        precedes(a, b),
    ensures
        !precedes(b, a),
        a != b,
{
    let k = choose|k: int| parts_at(a, b, k);
    if precedes(b, a) {
        let m = choose|m: int| parts_at(b, a, m);
        if k < m {
            assert(b[k] == a[k]);
        } else if m < k {
            assert(a[m] == b[m]);
        }
    }
}

/// Dictionary order is transitive.
pub proof fn lemma_precedes_transitive(a: Seq<char>, b: Seq<char>, c: Seq<char>)
    requires
        precedes(a, b),
        precedes(b, c),
    ensures
        precedes(a, c),
{
    let k = choose|k: int| parts_at(a, b, k);
    let m = choose|m: int| parts_at(b, c, m);
    let n = if k <= m { k } else { m };
    assert forall|j: int| 0 <= j < n implies a[j] == c[j] by {
        assert(a[j] == b[j]);
        assert(b[j] == c[j]);
    }
    if k < m {
        assert(b[k] == c[k]);
    }
    assert(parts_at(a, c, n));
}

proof fn lemma_order_from(a: Seq<char>, b: Seq<char>, i: int)
    requires
        0 <= i <= a.len(),
        i <= b.len(),
        forall|j: int| 0 <= j < i ==> a[j] == b[j],
    ensures
        a == b || precedes(a, b) || precedes(b, a),
    decreases a.len() - i,
{
    if i == a.len() {
        if i == b.len() {
            assert(a =~= b);
        } else {
            assert(parts_at(a, b, i));
        }
    } else if i == b.len() {
        assert(parts_at(b, a, i));
    } else if a[i] < b[i] {
        assert(parts_at(a, b, i));
    } else if b[i] < a[i] {
        assert(parts_at(b, a, i));
    } else {
        assert(a[i] == b[i]);
        lemma_order_from(a, b, i + 1);
    }
}

/// Dictionary order is total: two different strings are ordered one way
/// or the other.
pub proof fn lemma_precedes_total(a: Seq<char>, b: Seq<char>)
    ensures
        a == b || precedes(a, b) || precedes(b, a),
{
    lemma_order_from(a, b, 0);
}

/// An ascending sequence is fixed by the set of its elements.
pub proof fn lemma_ascending_unique(x: Seq<Seq<char>>, y: Seq<Seq<char>>)
    requires
        ascending(x),
        ascending(y),
        x.to_set() == y.to_set(),
    ensures
        x == y,
    decreases x.len(),
{
    if x.len() == 0 {
        if y.len() > 0 {
            assert(y.to_set().contains(y[0]));
            assert(x.to_set().contains(y[0]));
        }
        assert(x =~= y);
    } else if y.len() == 0 {
        assert(x.to_set().contains(x[0]));
        assert(y.to_set().contains(x[0]));
    } else {
        // The greatest element of each is its last; the two are the same.
        let xl = x.last();
        let yl = y.last();
        assert(x.to_set().contains(xl));
        assert(y.to_set().contains(xl));
        assert(y.to_set().contains(yl));
        assert(x.to_set().contains(yl));
        let i = choose|i: int| 0 <= i < y.len() && y[i] == xl;
        let j = choose|j: int| 0 <= j < x.len() && x[j] == yl;
        if xl != yl {
            assert(i < y.len() - 1);
            assert(j < x.len() - 1);
            assert(precedes(y[i], y[y.len() - 1]));
            assert(precedes(x[j], x[x.len() - 1]));
            lemma_precedes_asymmetric(xl, yl);
        }
        let xs = x.drop_last();
        let ys = y.drop_last();
        assert forall|e: Seq<char>| xs.to_set().contains(e) <==> ys.to_set().contains(e) by {
            if xs.to_set().contains(e) {
                let p = choose|p: int| 0 <= p < xs.len() && xs[p] == e;
                assert(x[p] == e);
                assert(precedes(x[p], x[x.len() - 1]));
                lemma_precedes_asymmetric(e, xl);
                assert(x.to_set().contains(e));
                assert(y.to_set().contains(e));
                let q = choose|q: int| 0 <= q < y.len() && y[q] == e;
                assert(ys[q] == e);
            }
            if ys.to_set().contains(e) {
                let p = choose|p: int| 0 <= p < ys.len() && ys[p] == e;
                assert(y[p] == e);
                assert(precedes(y[p], y[y.len() - 1]));
                lemma_precedes_asymmetric(e, yl);
                assert(y.to_set().contains(e));
                assert(x.to_set().contains(e));
                let q = choose|q: int| 0 <= q < x.len() && x[q] == e;
                assert(xs[q] == e);
            }
        }
        assert(xs.to_set() =~= ys.to_set());
        assert(ascending(xs)) by {
            assert forall|i: int, j: int| 0 <= i < j < xs.len() implies precedes(
                #[trigger] xs[i],
                #[trigger] xs[j],
            ) by {
                assert(precedes(x[i], x[j]));
            }
        }
        assert(ascending(ys)) by {
            assert forall|i: int, j: int| 0 <= i < j < ys.len() implies precedes(
                #[trigger] ys[i],
                #[trigger] ys[j],
            ) by {
                assert(precedes(y[i], y[j]));
            }
        }
        lemma_ascending_unique(xs, ys);
        assert(x =~= xs.push(xl));
        assert(y =~= ys.push(yl));
    }
}

/// The characters of `s`, in order.
pub fn chars_of(s: &str) -> (v: Vec<char>)
    ensures
        v@ == s@,
{
    let mut v: Vec<char> = Vec::new();
    for c in it: s.chars()
        invariant
            it.seq() == s@,
            v@ == s@.take(it.index() as int),
    {
        v.push(c);
        assert(s@.take(it.index() + 1) =~= s@.take(it.index() as int).push(c));
    }
    assert(s@.take(s@.len() as int) =~= s@);
    v
}

/// Whether `a` and `b` hold the same characters.
pub fn same_text(a: &str, b: &str) -> (r: bool)
    ensures
        r == (a@ == b@),
{
    let x = chars_of(a);
    let y = chars_of(b);
    if x.len() != y.len() {
        return false;
    }
    let mut i: usize = 0;
    while i < x.len()
        invariant
            i <= x.len(),
            x.len() == y.len(),
            x@ == a@,
            y@ == b@,
            forall|j: int| 0 <= j < i ==> x[j] == y[j],
        decreases x.len() - i,
    {
        if x[i] != y[i] {
            return false;
        }
        i = i + 1;
    }
    assert(x@ =~= y@);
    true
}

/// Whether `a` comes strictly before `b` in dictionary order.
pub fn comes_before(a: &str, b: &str) -> (r: bool)
    ensures
        r == precedes(a@, b@),
{
    let x = chars_of(a);
    let y = chars_of(b);
    let mut i: usize = 0;
    while i < x.len() && i < y.len()
        invariant
            i <= x.len(),
            i <= y.len(),
            x@ == a@,
            y@ == b@,
            forall|j: int| 0 <= j < i ==> x[j] == y[j],
        decreases x.len() - i,
    {
        if x[i] < y[i] {
            assert(parts_at(a@, b@, i as int));
            return true;
        }
        if y[i] < x[i] {
            proof {
                assert(parts_at(b@, a@, i as int));
                lemma_precedes_asymmetric(b@, a@);
            }
            return false;
        }
        i = i + 1;
    }
    if i < y.len() {
        assert(parts_at(a@, b@, i as int));
        true
    } else {
        proof {
            if i < x.len() {
                assert(parts_at(b@, a@, i as int));
                lemma_precedes_asymmetric(b@, a@);
            } else {
                assert(a@ =~= b@);
                if precedes(a@, b@) {
                    lemma_precedes_asymmetric(a@, b@);
                }
            }
        }
        false
    }
}

/// Appends `cell`, left-aligned in a column of `width` characters, to `line`.
pub fn push_padded(line: &mut String, cell: &str, width: usize)
    ensures
        final(line)@ == old(line)@ + padded(cell@, width as nat),
{
    line.append(cell);
    let used: usize = cell.unicode_len();
    let mut filled: usize = used;
    proof {
        assert(spaces(0) =~= Seq::<char>::empty());
        assert(line@ =~= old(line)@ + cell@ + spaces(0));
    }
    while filled < width
        invariant
            used == cell@.len(),
            used <= filled,
            used < width ==> filled <= width,
            used >= width ==> filled == used,
            line@ == old(line)@ + cell@ + spaces((filled - used) as nat),
        decreases width - filled,
    {
        proof {
            reveal_strlit(" ");
            assert(spaces((filled - used) as nat) + " "@ =~= spaces((filled + 1 - used) as nat));
        }
        line.append(" ");
        filled = filled + 1;
    }
    proof {
        if used >= width {
            assert(spaces((filled - used) as nat) =~= Seq::<char>::empty());
            assert(line@ =~= old(line)@ + cell@);
        } else {
            assert(line@ =~= old(line)@ + (cell@ + spaces((width - used) as nat)));
        }
    }
}

/// The strings of `parts` one after another, with `sep` between each two.
pub fn join(parts: &Vec<String>, sep: &str) -> (out: String)
    ensures
        out@ == joined(parts.deep_view(), sep@),
{
    let mut out = String::new();
    let mut i: usize = 0;
    while i < parts.len()
        invariant
            i <= parts.len(),
            out@ == joined(parts.deep_view().take(i as int), sep@),
        decreases parts.len() - i,
    {
        proof {
            let before = parts.deep_view().take(i as int);
            let after = parts.deep_view().take(i + 1);
            assert(after.drop_last() =~= before);
            assert(after.last() == parts[i as int]@);
            if i == 0 {
                assert(out@ + parts[i as int]@ =~= after[0]);
            }
        }
        if i > 0 {
            out.append(sep);
        }
        out.append(parts[i].as_str());
        i = i + 1;
    }
    assert(parts.deep_view().take(parts.len() as int) =~= parts.deep_view());
    out
}

} // verus!
