use vstd::prelude::*;

verus! {

/// The texts of a sequence of strings.
pub open spec fn texts(v: Seq<String>) -> Seq<Seq<char>> {
    v.map_values(|s: String| s@)
}

/// Whether one of the positions in `kept` carries the key `k`.
pub open spec fn key_taken<K>(keys: Seq<K>, kept: Seq<int>, k: K) -> bool {
    exists|j: int| 0 <= j < kept.len() && keys[kept[j]] == k
}

/// The positions below `n` that are taken when a position is taken exactly
/// when it is selected and no position taken before it has a stored key equal
/// to the position's probe key. The stored key of a position is the key it
/// is remembered by once taken; the probe key is the one it is compared by.
pub open spec fn first_per_key_by<K>(stored: Seq<K>, probe: Seq<K>, selected: Seq<bool>, n: int) -> Seq<int>
    decreases n,
{
    if n <= 0 {
        Seq::empty()
    } else {
        let kept = first_per_key_by(stored, probe, selected, n - 1);
        if selected[n - 1] && !key_taken(stored, kept, probe[n - 1]) {
            kept.push(n - 1)
        } else {
            kept
        }
    }
}

/// The positions below `n` that are taken when a position is taken exactly
/// when it is selected and no position taken before it carries the same key:
/// the first selected occurrence of each key, in order.
pub open spec fn first_per_key<K>(keys: Seq<K>, selected: Seq<bool>, n: int) -> Seq<int> {
    first_per_key_by(keys, keys, selected, n)
}

/// The positions below `n` whose flag is set, in increasing order.
pub open spec fn positions_where(flags: Seq<bool>, n: int) -> Seq<int>
    decreases n,
{
    if n <= 0 {
        Seq::empty()
    } else if flags[n - 1] {
        positions_where(flags, n - 1).push(n - 1)
    } else {
        positions_where(flags, n - 1)
    }
}

/// Every position selected.
pub open spec fn all_selected(n: nat) -> Seq<bool> {
    Seq::new(n, |i: int| true)
}

/// The positions below `n` whose key is `k`, in increasing order.
pub open spec fn positions_with_key<K>(keys: Seq<K>, k: K, n: int) -> Seq<int>
    decreases n,
{
    if n <= 0 {
        Seq::empty()
    } else if keys[n - 1] == k {
        positions_with_key(keys, k, n - 1).push(n - 1)
    } else {
        positions_with_key(keys, k, n - 1)
    }
}

/// The positions of `keys` grouped by key: one group per distinct key, in the
/// order of first occurrence, each group holding all positions of that key.
pub open spec fn key_groups<K>(keys: Seq<K>) -> Seq<Seq<int>> {
    first_per_key(keys, all_selected(keys.len()), keys.len() as int).map_values(
        |h: int| positions_with_key(keys, keys[h], keys.len() as int),
    )
}

/// Whether some group holds position `i`.
pub open spec fn in_some_group(groups: Seq<Seq<int>>, i: int) -> bool {
    exists|g: int| 0 <= g < groups.len() && #[trigger] groups[g].contains(i)
}

/// The positions of a vector of indices, as integers.
pub open spec fn as_positions(v: Seq<usize>) -> Seq<int> {
    v.map_values(|i: usize| i as int)
}

/// Taken positions lie below `n`, are selected, and increase strictly.
pub proof fn lemma_first_per_key_shape<K>(stored: Seq<K>, probe: Seq<K>, selected: Seq<bool>, n: int)
    requires
        0 <= n <= stored.len(),
        n <= probe.len(),
        n <= selected.len(),
    ensures
        forall|j: int|
            0 <= j < first_per_key_by(stored, probe, selected, n).len() ==> 0
                <= #[trigger] first_per_key_by(stored, probe, selected, n)[j] < n && selected[first_per_key_by(
                stored,
                probe,
                selected,
                n,
            )[j]],
        forall|j1: int, j2: int|
            0 <= j1 < j2 < first_per_key_by(stored, probe, selected, n).len() ==> #[trigger] first_per_key_by(
                stored,
                probe,
                selected,
                n,
            )[j1] < #[trigger] first_per_key_by(stored, probe, selected, n)[j2],
    decreases n,
{
    if n > 0 {
        lemma_first_per_key_shape(stored, probe, selected, n - 1);
        let kept = first_per_key_by(stored, probe, selected, n - 1);
        let now = first_per_key_by(stored, probe, selected, n);
        assert forall|j: int| 0 <= j < kept.len() implies now[j] == kept[j] by {}
        assert forall|j1: int, j2: int| 0 <= j1 < j2 < now.len() implies #[trigger] now[j1]
            < #[trigger] now[j2] by {
            if j2 < kept.len() {
                assert(now[j1] == kept[j1] && now[j2] == kept[j2]);
            } else {
                assert(now[j1] == kept[j1]);
            }
        }
    }
}

/// Whether a selected position `i` is taken, or a position taken before it
/// has a stored key equal to its probe key.
pub open spec fn covered_by<K>(stored: Seq<K>, probe: Seq<K>, kept: Seq<int>, i: int) -> bool {
    (exists|j: int| 0 <= j < kept.len() && kept[j] == i) || (exists|j: int|
        0 <= j < kept.len() && kept[j] < i && stored[kept[j]] == probe[i])
}

/// Law: every selected position is taken, or a position taken before it has
/// a stored key equal to its probe key: no selected line is dropped unless a
/// kept line stands for it.
pub proof fn lemma_first_per_key_by_covers<K>(stored: Seq<K>, probe: Seq<K>, selected: Seq<bool>, n: int)
    requires
        0 <= n <= stored.len(),
        n <= probe.len(),
        n <= selected.len(),
    ensures
        forall|i: int|
            0 <= i < n && selected[i] ==> #[trigger] covered_by(
                stored,
                probe,
                first_per_key_by(stored, probe, selected, n),
                i,
            ),
    decreases n,
{
    if n > 0 {
        lemma_first_per_key_by_covers(stored, probe, selected, n - 1);
        lemma_first_per_key_shape(stored, probe, selected, n - 1);
        let kept = first_per_key_by(stored, probe, selected, n - 1);
        let now = first_per_key_by(stored, probe, selected, n);
        assert forall|i: int| 0 <= i < n && selected[i] implies #[trigger] covered_by(
            stored,
            probe,
            now,
            i,
        ) by {
            if i < n - 1 {
                assert(covered_by(stored, probe, kept, i));
                if exists|j: int| 0 <= j < kept.len() && kept[j] == i {
                    let j = choose|j: int| 0 <= j < kept.len() && kept[j] == i;
                    assert(now[j] == kept[j]);
                } else {
                    let j = choose|j: int|
                        0 <= j < kept.len() && kept[j] < i && stored[kept[j]] == probe[i];
                    assert(now[j] == kept[j]);
                }
            } else if key_taken(stored, kept, probe[n - 1]) {
                let j = choose|j: int| 0 <= j < kept.len() && stored[kept[j]] == probe[n - 1];
                assert(now[j] == kept[j]);
                assert(kept[j] < n - 1);
            } else {
                assert(now[kept.len() as int] == n - 1);
            }
        }
    }
}

/// Law: no two taken positions carry the same key.
pub proof fn lemma_first_per_key_distinct<K>(keys: Seq<K>, selected: Seq<bool>, n: int)
    requires
        0 <= n <= keys.len(),
        n <= selected.len(),
    ensures
        forall|j1: int, j2: int|
            0 <= j1 < first_per_key(keys, selected, n).len() && 0 <= j2 < first_per_key(
                keys,
                selected,
                n,
            ).len() && j1 != j2 ==> keys[#[trigger] first_per_key(keys, selected, n)[j1]]
                != keys[#[trigger] first_per_key(keys, selected, n)[j2]],
    decreases n,
{
    if n > 0 {
        lemma_first_per_key_distinct(keys, selected, n - 1);
        let kept = first_per_key(keys, selected, n - 1);
        let now = first_per_key(keys, selected, n);
        assert forall|j1: int, j2: int|
            0 <= j1 < now.len() && 0 <= j2 < now.len() && j1 != j2 implies keys[#[trigger] now[j1]]
            != keys[#[trigger] now[j2]] by {
            if j1 < kept.len() && j2 < kept.len() {
                assert(now[j1] == kept[j1] && now[j2] == kept[j2]);
            } else if j1 < kept.len() {
                assert(now[j1] == kept[j1]);
                assert(!key_taken(keys, kept, keys[n - 1]));
            } else {
                assert(now[j2] == kept[j2]);
                assert(!key_taken(keys, kept, keys[n - 1]));
            }
        }
    }
}

/// Law: every selected position shares its key with a taken position that
/// comes no later than it, and a taken position is the first selected
/// occurrence of its key.
pub proof fn lemma_first_per_key_first_occurrence<K>(keys: Seq<K>, selected: Seq<bool>, n: int)
    requires
        0 <= n <= keys.len(),
        n <= selected.len(),
    ensures
        forall|i: int|
            0 <= i < n && #[trigger] selected[i] ==> exists|j: int|
                0 <= j < first_per_key(keys, selected, n).len() && first_per_key(
                    keys,
                    selected,
                    n,
                )[j] <= i && keys[#[trigger] first_per_key(keys, selected, n)[j]] == keys[i],
        forall|j: int, i: int|
            0 <= j < first_per_key(keys, selected, n).len() && 0 <= i < #[trigger] first_per_key(
                keys,
                selected,
                n,
            )[j] && #[trigger] selected[i] ==> keys[i] != keys[first_per_key(keys, selected, n)[j]],
    decreases n,
{
    if n > 0 {
        lemma_first_per_key_first_occurrence(keys, selected, n - 1);
        lemma_first_per_key_shape(keys, keys, selected, n - 1);
        let kept = first_per_key(keys, selected, n - 1);
        let now = first_per_key(keys, selected, n);
        assert forall|i: int| 0 <= i < n && #[trigger] selected[i] implies exists|j: int|
            0 <= j < now.len() && now[j] <= i && keys[#[trigger] now[j]] == keys[i] by {
            if i < n - 1 {
                let j = choose|j: int|
                    0 <= j < kept.len() && kept[j] <= i && keys[#[trigger] kept[j]] == keys[i];
                assert(now[j] == kept[j]);
            } else if key_taken(keys, kept, keys[n - 1]) {
                let j = choose|j: int| 0 <= j < kept.len() && keys[kept[j]] == keys[n - 1];
                assert(now[j] == kept[j]);
            } else {
                assert(now[kept.len() as int] == n - 1);
            }
        }
        assert forall|j: int, i: int|
            0 <= j < now.len() && 0 <= i < #[trigger] now[j] && #[trigger] selected[i] implies keys[i]
            != keys[now[j]] by {
            if j < kept.len() {
                assert(now[j] == kept[j]);
            } else {
                assert(now[j] == n - 1);
                if keys[i] == keys[n - 1] {
                    let jj = choose|jj: int|
                        0 <= jj < kept.len() && kept[jj] <= i && keys[#[trigger] kept[jj]]
                            == keys[i];
                    assert(key_taken(keys, kept, keys[n - 1]));
                }
            }
        }
    }
}

/// A position below `n` is among `positions_with_key(keys, k, n)` exactly
/// when its key is `k`, and those positions increase strictly.
pub proof fn lemma_positions_with_key(keys: Seq<Seq<char>>, k: Seq<char>, n: int)
    requires
        0 <= n <= keys.len(),
    ensures
        forall|i: int|
            0 <= i < n ==> (positions_with_key(keys, k, n).contains(i) <==> keys[i] == k),
        forall|j: int|
            0 <= j < positions_with_key(keys, k, n).len() ==> 0 <= #[trigger] positions_with_key(
                keys,
                k,
                n,
            )[j] < n && keys[positions_with_key(keys, k, n)[j]] == k,
        forall|j1: int, j2: int|
            0 <= j1 < j2 < positions_with_key(keys, k, n).len() ==> #[trigger] positions_with_key(
                keys,
                k,
                n,
            )[j1] < #[trigger] positions_with_key(keys, k, n)[j2],
    decreases n,
{
    if n > 0 {
        lemma_positions_with_key(keys, k, n - 1);
        let prev = positions_with_key(keys, k, n - 1);
        let now = positions_with_key(keys, k, n);
        assert forall|i: int| 0 <= i < n implies (now.contains(i) <==> keys[i] == k) by {
            if keys[i] == k {
                if i < n - 1 {
                    let j = choose|j: int| 0 <= j < prev.len() && prev[j] == i;
                    assert(now[j] == i);
                } else {
                    assert(now[now.len() - 1] == i);
                }
            }
            if now.contains(i) {
                let j = choose|j: int| 0 <= j < now.len() && now[j] == i;
                if j < prev.len() {
                    assert(now[j] == prev[j]);
                }
            }
        }
    }
}

/// Law: the positions taken under two selections that never hold together
/// are disjoint.
pub proof fn lemma_first_per_key_exclusive<K>(
    stored: Seq<K>,
    probe: Seq<K>,
    first: Seq<bool>,
    second: Seq<bool>,
    n: int,
)
    requires
        0 <= n <= stored.len(),
        n <= probe.len(),
        n <= first.len(),
        n <= second.len(),
        forall|i: int| 0 <= i < n ==> !(#[trigger] first[i] && second[i]),
    ensures
        forall|j1: int, j2: int|
            0 <= j1 < first_per_key_by(stored, probe, first, n).len() && 0 <= j2 < first_per_key_by(
                stored,
                probe,
                second,
                n,
            ).len() ==> #[trigger] first_per_key_by(stored, probe, first, n)[j1]
                != #[trigger] first_per_key_by(stored, probe, second, n)[j2],
{
    lemma_first_per_key_shape(stored, probe, first, n);
    lemma_first_per_key_shape(stored, probe, second, n);
}

/// Law: a position is among `positions_where(flags, n)` exactly when it lies
/// below `n` and its flag is set; the positions increase strictly.
pub proof fn lemma_positions_where(flags: Seq<bool>, n: int)
    requires
        0 <= n <= flags.len(),
    ensures
        forall|i: int| 0 <= i < n ==> (positions_where(flags, n).contains(i) <==> flags[i]),
        forall|j: int|
            0 <= j < positions_where(flags, n).len() ==> 0 <= #[trigger] positions_where(flags, n)[j]
                < n && flags[positions_where(flags, n)[j]],
        forall|j1: int, j2: int|
            0 <= j1 < j2 < positions_where(flags, n).len() ==> #[trigger] positions_where(flags, n)[j1]
                < #[trigger] positions_where(flags, n)[j2],
    decreases n,
{
    if n > 0 {
        lemma_positions_where(flags, n - 1);
        let prev = positions_where(flags, n - 1);
        let now = positions_where(flags, n);
        assert forall|i: int| 0 <= i < n implies (now.contains(i) <==> flags[i]) by {
            if flags[i] {
                if i < n - 1 {
                    let j = choose|j: int| 0 <= j < prev.len() && prev[j] == i;
                    assert(now[j] == i);
                } else {
                    assert(now[now.len() - 1] == i);
                }
            }
            if now.contains(i) {
                let j = choose|j: int| 0 <= j < now.len() && now[j] == i;
                if j < prev.len() {
                    assert(now[j] == prev[j]);
                }
            }
        }
        assert forall|j1: int, j2: int| 0 <= j1 < j2 < now.len() implies #[trigger] now[j1]
            < #[trigger] now[j2] by {
            assert(now[j1] == prev[j1]);
            if j2 < prev.len() {
                assert(now[j2] == prev[j2]);
            }
        }
        assert forall|j: int| 0 <= j < now.len() implies 0 <= #[trigger] now[j] < n && flags[now[j]] by {
            if j < prev.len() {
                assert(now[j] == prev[j]);
            }
        }
    }
}

/// Law: grouping by key partitions the positions — every position lies in
/// exactly one group, and that group is the one of its key.
pub proof fn lemma_key_groups_partition(keys: Seq<Seq<char>>)
    ensures
        forall|i: int| 0 <= i < keys.len() ==> #[trigger] in_some_group(key_groups(keys), i),
        forall|i: int, g1: int, g2: int|
            0 <= g1 < key_groups(keys).len() && 0 <= g2 < key_groups(keys).len() && #[trigger] key_groups(
                keys,
            )[g1].contains(i) && #[trigger] key_groups(keys)[g2].contains(i) ==> g1 == g2,
        forall|g: int, j: int|
            0 <= g < key_groups(keys).len() && 0 <= j < key_groups(keys)[g].len() ==> 0
                <= #[trigger] key_groups(keys)[g][j] < keys.len(),
{
    let n = keys.len() as int;
    let sel = all_selected(keys.len());
    let heads = first_per_key(keys, sel, n);
    lemma_first_per_key_shape(keys, keys, sel, n);
    lemma_first_per_key_distinct(keys, sel, n);
    lemma_first_per_key_first_occurrence(keys, sel, n);
    assert forall|i: int| 0 <= i < n implies #[trigger] in_some_group(key_groups(keys), i) by {
        assert(sel[i]);
        let g = choose|j: int| 0 <= j < heads.len() && heads[j] <= i && keys[#[trigger] heads[j]] == keys[i];
        lemma_positions_with_key(keys, keys[heads[g]], n);
        assert(key_groups(keys)[g] == positions_with_key(keys, keys[heads[g]], n));
    }
    assert forall|i: int, g1: int, g2: int|
        0 <= g1 < key_groups(keys).len() && 0 <= g2 < key_groups(keys).len() && #[trigger] key_groups(
            keys,
        )[g1].contains(i) && #[trigger] key_groups(keys)[g2].contains(i) implies g1 == g2 by {
        lemma_positions_with_key(keys, keys[heads[g1]], n);
        lemma_positions_with_key(keys, keys[heads[g2]], n);
        let j1 = choose|j: int| 0 <= j < key_groups(keys)[g1].len() && key_groups(keys)[g1][j] == i;
        let j2 = choose|j: int| 0 <= j < key_groups(keys)[g2].len() && key_groups(keys)[g2][j] == i;
        assert(key_groups(keys)[g1][j1] == positions_with_key(keys, keys[heads[g1]], n)[j1]);
        assert(key_groups(keys)[g2][j2] == positions_with_key(keys, keys[heads[g2]], n)[j2]);
    }
    assert forall|g: int, j: int|
        0 <= g < key_groups(keys).len() && 0 <= j < key_groups(keys)[g].len() implies 0
            <= #[trigger] key_groups(keys)[g][j] < keys.len() by {
        lemma_positions_with_key(keys, keys[heads[g]], n);
        assert(key_groups(keys)[g][j] == positions_with_key(keys, keys[heads[g]], n)[j]);
    }
}

/// Whether a position in `kept` has a stored text equal to the probe text of `i`.
fn key_already_taken(stored: &Vec<String>, probe: &Vec<String>, kept: &Vec<usize>, i: usize) -> (res: bool)
    requires
        i < probe.len(),
        forall|j: int| 0 <= j < kept.len() ==> kept[j] < stored.len(),
    ensures
        res == key_taken(texts(stored@), as_positions(kept@), probe@[i as int]@),
{
    let mut j: usize = 0;
    while j < kept.len()
        invariant
            i < probe.len(),
            j <= kept.len(),
            forall|t: int| 0 <= t < kept.len() ==> kept[t] < stored.len(),
            forall|t: int| 0 <= t < j ==> stored@[kept@[t] as int]@ != probe@[i as int]@,
        decreases kept.len() - j,
    {
        if stored[kept[j]] == probe[i] {
            assert(texts(stored@)[as_positions(kept@)[j as int]] == probe@[i as int]@);
            return true;
        }
        j = j + 1;
    }
    proof {
        if key_taken(texts(stored@), as_positions(kept@), probe@[i as int]@) {
            let t = choose|t: int|
                0 <= t < as_positions(kept@).len() && texts(stored@)[as_positions(kept@)[t]]
                    == probe@[i as int]@;
            assert(stored@[kept@[t] as int]@ != probe@[i as int]@);
        }
    }
    false
}

/// The positions taken when each selected position is kept unless an earlier
/// kept position has a stored text equal to its probe text.
pub fn first_selected_per_key_by(stored: &Vec<String>, probe: &Vec<String>, selected: &Vec<bool>) -> (kept: Vec<usize>)
    requires
        stored.len() == selected.len(),
        probe.len() == selected.len(),
    ensures
        as_positions(kept@) == first_per_key_by(
            texts(stored@),
            texts(probe@),
            selected@,
            selected.len() as int,
        ),
{
    let mut kept: Vec<usize> = Vec::new();
    let mut i: usize = 0;
    while i < selected.len()
        invariant
            stored.len() == selected.len(),
            probe.len() == selected.len(),
            i <= selected.len(),
            as_positions(kept@) == first_per_key_by(texts(stored@), texts(probe@), selected@, i as int),
            forall|j: int| 0 <= j < kept.len() ==> kept[j] < i,
        decreases selected.len() - i,
    {
        if selected[i] && !key_already_taken(stored, probe, &kept, i) {
            kept.push(i);
        }
        assert(as_positions(kept@) == first_per_key_by(texts(stored@), texts(probe@), selected@, i + 1));
        i = i + 1;
    }
    kept
}

/// The positions taken when each selected position is kept unless an earlier
/// kept position carries the same text: the first selected occurrence of
/// every key, in order.
pub fn first_selected_per_key(keys: &Vec<String>, selected: &Vec<bool>) -> (kept: Vec<usize>)
    requires
        keys.len() == selected.len(),
    ensures
        as_positions(kept@) == first_per_key(texts(keys@), selected@, keys.len() as int),
{
    first_selected_per_key_by(keys, keys, selected)
}

/// All positions below `n` whose text equals that of `keys[head]`, in order.
fn positions_of_key(keys: &Vec<String>, head: usize) -> (res: Vec<usize>)
    requires
        head < keys.len(),
    ensures
        as_positions(res@) == positions_with_key(
            texts(keys@),
            keys@[head as int]@,
            keys.len() as int,
        ),
{
    let mut res: Vec<usize> = Vec::new();
    let mut i: usize = 0;
    while i < keys.len()
        invariant
            head < keys.len(),
            i <= keys.len(),
            as_positions(res@) == positions_with_key(texts(keys@), keys@[head as int]@, i as int),
        decreases keys.len() - i,
    {
        if keys[i] == keys[head] {
            res.push(i);
        }
        assert(as_positions(res@) == positions_with_key(
            texts(keys@),
            keys@[head as int]@,
            i + 1,
        ));
        i = i + 1;
    }
    res
}

/// Groups the positions of `keys` by their text: one group per distinct text,
/// in the order in which the texts first occur, each holding every position
/// of that text in increasing order.
pub fn group_by_key(keys: &Vec<String>) -> (groups: Vec<Vec<usize>>)
    ensures
        groups@.len() == key_groups(texts(keys@)).len(),
        forall|g: int|
            0 <= g < groups@.len() ==> as_positions(#[trigger] groups@[g]@) == key_groups(
                texts(keys@),
            )[g],
{
    let mut all: Vec<bool> = Vec::new();
    let mut i: usize = 0;
    while i < keys.len()
        invariant
            i <= keys.len(),
            all@ == all_selected(i as nat),
        decreases keys.len() - i,
    {
        all.push(true);
        assert(all@ == all_selected((i + 1) as nat));
        i = i + 1;
    }
    let heads = first_selected_per_key(keys, &all);
    proof {
        lemma_first_per_key_shape(texts(keys@), texts(keys@), all@, keys.len() as int);
        assert forall|j: int| 0 <= j < heads.len() implies heads[j] < keys.len() by {
            assert(as_positions(heads@)[j] == heads[j] as int);
        }
    }
    let mut groups: Vec<Vec<usize>> = Vec::new();
    let mut g: usize = 0;
    while g < heads.len()
        invariant
            g <= heads.len(),
            all@ == all_selected(keys.len() as nat),
            as_positions(heads@) == first_per_key(texts(keys@), all@, keys.len() as int),
            forall|j: int| 0 <= j < heads.len() ==> heads[j] < keys.len(),
            groups@.len() == g,
            forall|t: int|
                0 <= t < g ==> as_positions(#[trigger] groups@[t]@) == key_groups(
                    texts(keys@),
                )[t],
        decreases heads.len() - g,
    {
        proof {
            assert(as_positions(heads@)[g as int] == heads[g as int] as int);
        }
        let members = positions_of_key(keys, heads[g]);
        groups.push(members);
        g = g + 1;
    }
    groups
}

} // verus!
