//! The footnote tracking table: sequence numbers are handed out in
//! first-reference order, and each identifier may be resolved by at
//! most one definition.
use vstd::prelude::*;

verus! {

use vstd::string::StringExecFns;
use crate::errors::str_eq;

/// Why a footnote definition is rejected.
#[derive(Clone, Copy, Debug, PartialEq, Eq, Structural)]
pub enum DefError {
    NotReferenced,
    AlreadyResolved,
}

/// The table built during one walk: entry `i` belongs to the
/// identifier with sequence number `i + 1`, with its resolved flag.
pub struct FootnoteTable {
    entries: Vec<(String, bool)>,
}

impl View for FootnoteTable {
    type V = Seq<(Seq<char>, bool)>;

    closed spec fn view(&self) -> Seq<(Seq<char>, bool)> {
        self.entries@.map_values(|p: (String, bool)| (p.0@, p.1))
    }
}

/// The index of `id` in the table, or the table's length when absent.
pub open spec fn find_id(tbl: Seq<(Seq<char>, bool)>, id: Seq<char>) -> int
    decreases tbl.len(),
{
    if tbl.len() == 0 {
        0
    } else if tbl[0].0 == id {
        0
    } else {
        1 + find_id(tbl.drop_first(), id)
    }
}

pub open spec fn has_id(tbl: Seq<(Seq<char>, bool)>, id: Seq<char>) -> bool {
    find_id(tbl, id) < tbl.len()
}

pub proof fn lemma_find_id_bounds(tbl: Seq<(Seq<char>, bool)>, id: Seq<char>)
    ensures
        0 <= find_id(tbl, id) <= tbl.len(),
        has_id(tbl, id) ==> tbl[find_id(tbl, id)].0 == id,
    decreases tbl.len(),
{
    if tbl.len() > 0 && tbl[0].0 != id {
        lemma_find_id_bounds(tbl.drop_first(), id);
    }
}

/// Referencing `id`: an identifier already in the table keeps its
/// number and the table stands; a new identifier is appended,
/// unresolved, under the next number.
pub open spec fn spec_reference(tbl: Seq<(Seq<char>, bool)>, id: Seq<char>) -> (
    Seq<(Seq<char>, bool)>,
    int,
) {
    if has_id(tbl, id) {
        (tbl, find_id(tbl, id) + 1)
    } else {
        (tbl.push((id, false)), tbl.len() as int + 1)
    }
}

/// Defining `id`: an identifier never referenced is an error; one
/// already resolved is an error; otherwise the entry is marked
/// resolved and keeps its number.
pub open spec fn spec_define(tbl: Seq<(Seq<char>, bool)>, id: Seq<char>) -> Result<
    (Seq<(Seq<char>, bool)>, int),
    DefError,
> {
    if !has_id(tbl, id) {
        Err(DefError::NotReferenced)
    } else if tbl[find_id(tbl, id)].1 {
        Err(DefError::AlreadyResolved)
    } else {
        Ok((tbl.update(find_id(tbl, id), (id, true)), find_id(tbl, id) + 1))
    }
}

impl FootnoteTable {
    pub fn new() -> (r: FootnoteTable)
        ensures
            r@ =~= Seq::<(Seq<char>, bool)>::empty(),
    {
        FootnoteTable { entries: Vec::new() }
    }

    pub fn count(&self) -> (r: usize)
        ensures
            r == self@.len(),
    {
        self.entries.len()
    }

    fn find(&self, id: &str) -> (r: Option<usize>)
        ensures
            r matches Some(i) ==> i == find_id(self@, id@) && i < self@.len() && i < usize::MAX,
            r is None ==> find_id(self@, id@) == self@.len(),
    {
        let ghost tbl = self@;
        let mut i: usize = 0;
        proof {
            assert(tbl.skip(0) =~= tbl);
        }
        while i < self.entries.len()
            invariant
                0 <= i <= self.entries@.len(),
                tbl == self@,
                tbl.len() == self.entries@.len(),
                find_id(tbl, id@) == i + find_id(tbl.skip(i as int), id@),
                forall|j: int| 0 <= j < i ==> tbl[j].0 != id@,
            decreases self.entries@.len() - i,
        {
            proof {
                assert(tbl.skip(i as int)[0] == tbl[i as int]);
                assert(tbl[i as int] == (self.entries@[i as int].0@, self.entries@[i as int].1));
            }
            if str_eq(self.entries[i].0.as_str(), id) {
                return Some(i);
            }
            proof {
                assert(tbl.skip(i as int).drop_first() =~= tbl.skip(i as int + 1));
            }
            i = i + 1;
        }
        proof {
            assert(tbl.skip(i as int).len() == 0);
        }
        None
    }

    /// Records a reference to `id` and yields its sequence number:
    /// the existing one when `id` was seen before, else the next.
    pub fn reference(&mut self, id: &String) -> (num: usize)
        requires
            old(self)@.len() < usize::MAX,
        ensures
            final(self)@ == spec_reference(old(self)@, id@).0,
            num as int == spec_reference(old(self)@, id@).1,
    {
        match self.find(id.as_str()) {
            Some(i) => i + 1,
            None => {
                let n = self.entries.len();
                self.entries.push((id.clone(), false));
                proof {
                    assert(self@ =~= old(self)@.push((id@, false)));
                }
                n + 1
            },
        }
    }

    /// Resolves the definition for `id`, yielding its sequence number,
    /// or says why the definition is rejected.
    pub fn define(&mut self, id: &String) -> (r: Result<usize, DefError>)
        ensures
            match spec_define(old(self)@, id@) {
                Ok((t2, n)) => final(self)@ == t2 && (r matches Ok(num) && num as int == n),
                Err(e) => final(self)@ == old(self)@ && r == Err::<usize, _>(e),
            },
    {
        proof {
            lemma_find_id_bounds(self@, id@);
        }
        match self.find(id.as_str()) {
            None => Err(DefError::NotReferenced),
            Some(i) => {
                if self.entries[i].1 {
                    Err(DefError::AlreadyResolved)
                } else {
                    let ident = self.entries[i].0.clone();
                    self.entries.set(i, (ident, true));
                    proof {
                        assert(self@ =~= old(self)@.update(
                            find_id(old(self)@, id@),
                            (id@, true),
                        ));
                    }
                    Ok(i + 1)
                }
            },
        }
    }
}

/// Two references to one identifier yield the same sequence number,
/// and the second leaves the table unchanged; a definition after them
/// resolves without error, under that same number.
pub proof fn lemma_reference_stable(tbl: Seq<(Seq<char>, bool)>, id: Seq<char>)
    ensures
        spec_reference(spec_reference(tbl, id).0, id).1 == spec_reference(tbl, id).1,
        spec_reference(spec_reference(tbl, id).0, id).0 == spec_reference(tbl, id).0,
        !has_id(tbl, id) ==> (spec_define(spec_reference(tbl, id).0, id) matches Ok((_, n)) && n
            == spec_reference(tbl, id).1),
{
    lemma_find_id_bounds(tbl, id);
    if !has_id(tbl, id) {
        let t2 = tbl.push((id, false));
        lemma_find_id_absent_push(tbl, id);
        lemma_find_id_bounds(t2, id);
    }
}

/// Each identifier takes at most one definition: resolving it once
/// makes any later definition for it an error, and resolving never
/// moves it or another identifier in the table.
pub proof fn lemma_define_once(tbl: Seq<(Seq<char>, bool)>, id: Seq<char>)
    requires
        spec_define(tbl, id) is Ok,
    ensures
        spec_define(spec_define(tbl, id)->Ok_0.0, id) == Err::<(Seq<(Seq<char>, bool)>, int),
            DefError,
        >(DefError::AlreadyResolved),
{
    lemma_find_id_bounds(tbl, id);
    let k = find_id(tbl, id);
    let t2 = tbl.update(k, (id, true));
    lemma_find_id_update_at(tbl, id, k, true);
    assert(t2[find_id(t2, id)].1);
}

/// Updating the entry an identifier stands at does not move it.
proof fn lemma_find_id_update_at(tbl: Seq<(Seq<char>, bool)>, id: Seq<char>, k: int, b: bool)
    requires
        0 <= k < tbl.len(),
        k == find_id(tbl, id),
        tbl[k].0 == id,
    ensures
        find_id(tbl.update(k, (id, b)), id) == k,
    decreases tbl.len(),
{
    let t2 = tbl.update(k, (id, b));
    if k == 0 {
        assert(t2[0].0 == id);
    } else {
        assert(tbl[0].0 != id);
        assert(t2[0] == tbl[0]);
        lemma_find_id_update_at(tbl.drop_first(), id, k - 1, b);
        assert(t2.drop_first() =~= tbl.drop_first().update(k - 1, (id, b)));
    }
}

/// The identifier has been resolved by a definition.
pub open spec fn resolved_in(tbl: Seq<(Seq<char>, bool)>, id: Seq<char>) -> bool {
    has_id(tbl, id) && tbl[find_id(tbl, id)].1
}

/// Pushing a different identifier moves nothing: a present identifier
/// keeps its place and entry.
pub proof fn lemma_find_id_push_other(
    tbl: Seq<(Seq<char>, bool)>,
    id: Seq<char>,
    id2: Seq<char>,
    b: bool,
)
    requires
        id != id2,
        has_id(tbl, id),
    ensures
        find_id(tbl.push((id2, b)), id) == find_id(tbl, id),
        has_id(tbl.push((id2, b)), id),
    decreases tbl.len(),
{
    let t2 = tbl.push((id2, b));
    assert(t2[0] == tbl[0]);
    if tbl[0].0 != id {
        lemma_find_id_bounds(tbl.drop_first(), id);
        lemma_find_id_push_other(tbl.drop_first(), id, id2, b);
        assert(t2.drop_first() =~= tbl.drop_first().push((id2, b)));
    }
}

/// Updating an entry that keeps a different identifier moves nothing:
/// the identifier keeps its place.
pub proof fn lemma_find_id_update_other(tbl: Seq<(Seq<char>, bool)>, id: Seq<char>, k: int, b: bool)
    requires
        0 <= k < tbl.len(),
        tbl[k].0 != id,
        has_id(tbl, id),
    ensures
        find_id(tbl.update(k, (tbl[k].0, b)), id) == find_id(tbl, id),
        has_id(tbl.update(k, (tbl[k].0, b)), id),
    decreases tbl.len(),
{
    let t2 = tbl.update(k, (tbl[k].0, b));
    if k == 0 {
        assert(t2.drop_first() =~= tbl.drop_first());
        assert(t2[0].0 == tbl[0].0);
        assert(tbl[0].0 != id);
        lemma_find_id_bounds(tbl.drop_first(), id);
    } else {
        assert(t2[0] == tbl[0]);
        if tbl[0].0 != id {
            lemma_find_id_bounds(tbl.drop_first(), id);
            lemma_find_id_update_other(tbl.drop_first(), id, k - 1, b);
            assert(t2.drop_first() =~= tbl.drop_first().update(k - 1, (tbl[k].0, b)));
        }
    }
}

/// A resolved identifier stays resolved through a reference or a
/// definition of any identifier that the table accepts.
pub proof fn lemma_resolved_preserved(tbl: Seq<(Seq<char>, bool)>, id: Seq<char>, id2: Seq<char>)
    requires
        resolved_in(tbl, id),
    ensures
        resolved_in(spec_reference(tbl, id2).0, id),
        spec_define(tbl, id2) matches Ok(p) ==> id2 != id && resolved_in(p.0, id),
    decreases tbl.len(),
{
    lemma_find_id_bounds(tbl, id);
    lemma_find_id_bounds(tbl, id2);
    if id2 == id {
        assert(spec_define(tbl, id2) is Err);
    }
    if !has_id(tbl, id2) {
        assert(id2 != id);
        lemma_find_id_push_other(tbl, id, id2, false);
        assert(tbl.push((id2, false))[find_id(tbl, id)] == tbl[find_id(tbl, id)]);
    }
    if spec_define(tbl, id2) is Ok {
        let k = find_id(tbl, id2);
        assert(tbl[k].0 == id2);
        lemma_find_id_update_other(tbl, id, k, true);
        assert(tbl.update(k, (id2, true))[find_id(tbl, id)] == tbl[find_id(tbl, id)]);
    }
}

/// A successful definition leaves its identifier resolved.
pub proof fn lemma_define_resolves(tbl: Seq<(Seq<char>, bool)>, id: Seq<char>)
    requires
        spec_define(tbl, id) is Ok,
    ensures
        resolved_in(spec_define(tbl, id)->Ok_0.0, id),
{
    lemma_find_id_bounds(tbl, id);
    let k = find_id(tbl, id);
    lemma_find_id_update_at(tbl, id, k, true);
}

/// Membership is untouched by pushing a different identifier.
proof fn lemma_has_id_push_other(
    tbl: Seq<(Seq<char>, bool)>,
    id: Seq<char>,
    id2: Seq<char>,
    b: bool,
)
    requires
        id != id2,
    ensures
        has_id(tbl.push((id2, b)), id) == has_id(tbl, id),
    decreases tbl.len(),
{
    let t2 = tbl.push((id2, b));
    if tbl.len() == 0 {
        assert(t2[0].0 != id);
        assert(t2.drop_first() =~= Seq::<(Seq<char>, bool)>::empty());
        assert(find_id(t2.drop_first(), id) == 0);
    } else {
        assert(t2[0] == tbl[0]);
        if tbl[0].0 != id {
            lemma_has_id_push_other(tbl.drop_first(), id, id2, b);
            assert(t2.drop_first() =~= tbl.drop_first().push((id2, b)));
            lemma_find_id_bounds(tbl.drop_first(), id);
            lemma_find_id_bounds(tbl.drop_first().push((id2, b)), id);
        }
    }
}

/// Membership is untouched by updating an entry that keeps its
/// identifier.
proof fn lemma_has_id_update_other(tbl: Seq<(Seq<char>, bool)>, id: Seq<char>, k: int, b: bool)
    requires
        0 <= k < tbl.len(),
        tbl[k].0 != id,
    ensures
        has_id(tbl.update(k, (tbl[k].0, b)), id) == has_id(tbl, id),
    decreases tbl.len(),
{
    let t2 = tbl.update(k, (tbl[k].0, b));
    if k == 0 {
        assert(t2.drop_first() =~= tbl.drop_first());
        assert(t2[0].0 == tbl[0].0);
    } else {
        assert(t2[0] == tbl[0]);
        if tbl[0].0 != id {
            lemma_has_id_update_other(tbl.drop_first(), id, k - 1, b);
            assert(t2.drop_first() =~= tbl.drop_first().update(k - 1, (tbl[k].0, b)));
            lemma_find_id_bounds(tbl.drop_first(), id);
            lemma_find_id_bounds(t2.drop_first(), id);
        }
    }
}

/// An identifier enters the table only by being referenced: a step on
/// any event that is not a reference to it leaves it absent.
pub proof fn lemma_absent_without_reference(tbl: Seq<(Seq<char>, bool)>, id: Seq<char>, id2: Seq<
    char,
>)
    requires
        !has_id(tbl, id),
        id != id2,
    ensures
        !has_id(spec_reference(tbl, id2).0, id),
        spec_define(tbl, id2) matches Ok(p) ==> !has_id(p.0, id),
{
    lemma_find_id_bounds(tbl, id2);
    if !has_id(tbl, id2) {
        lemma_has_id_push_other(tbl, id, id2, false);
    }
    if spec_define(tbl, id2) is Ok {
        let k = find_id(tbl, id2);
        assert(tbl[k].0 == id2);
        lemma_has_id_update_other(tbl, id, k, true);
    }
}

/// Appending a new identifier puts it exactly at the old length.
proof fn lemma_find_id_absent_push(tbl: Seq<(Seq<char>, bool)>, id: Seq<char>)
    requires
        !has_id(tbl, id),
    ensures
        find_id(tbl.push((id, false)), id) == tbl.len(),
    decreases tbl.len(),
{
    lemma_find_id_bounds(tbl, id);
    let t2 = tbl.push((id, false));
    if tbl.len() == 0 {
        assert(t2[0].0 == id);
    } else {
        assert(t2[0] == tbl[0]);
        lemma_find_id_absent_push(tbl.drop_first(), id);
        assert(t2.drop_first() =~= tbl.drop_first().push((id, false)));
    }
}

} // verus!
