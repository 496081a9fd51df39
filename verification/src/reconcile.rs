//! The delta reconciler: pure, deterministic rules applying one delta
//! message to a channel's current arrangement.
//!
//! * `New(s)` replaces the arrangement entirely with `s`.
//! * `Update(a)` overwrites the fields of the first asset whose `id`
//!   matches `a.id`, keeping its position; an unknown id is a no-op.
//! * `Delete(id)` removes every asset whose `id` matches; an absent id is
//!   a no-op.
//!
//! No delta is rejected for its geometry: validation is a client concern.

use vstd::prelude::*;

verus! {

use crate::model::{asset_wf, message_wf, state_wf, AssetView, ImgfloatAsset, ImgfloatState, MessageView};

/// The first index at or after `i` whose asset has the given id (or the
/// length of the sequence when none matches).
pub open spec fn first_match(s: Seq<AssetView>, id: Seq<char>, i: int) -> int
    decreases s.len() - i,
{
    if i < 0 || i >= s.len() {
        s.len() as int
    } else if s[i].id == id {
        i
    } else {
        first_match(s, id, i + 1)
    }
}

pub proof fn lemma_first_match(s: Seq<AssetView>, id: Seq<char>, i: int)
    requires
        0 <= i <= s.len(),
    ensures
        i <= first_match(s, id, i) <= s.len(),
        forall|j: int| i <= j < first_match(s, id, i) ==> s[j].id != id,
        first_match(s, id, i) < s.len() ==> s[first_match(s, id, i)].id == id,
    decreases s.len() - i,
{
    if i < s.len() && s[i].id != id {
        lemma_first_match(s, id, i + 1);
    }
}

/// The arrangement after `Update(a)`: the first asset whose id matches
/// `a.id` is replaced by `a`; without a match the arrangement is unchanged.
pub open spec fn spec_update(s: Seq<AssetView>, a: AssetView) -> Seq<AssetView> {
    let m = first_match(s, a.id, 0);
    if m < s.len() {
        s.update(m, a)
    } else {
        s
    }
}

/// The arrangement after `Delete(id)`: every asset whose id matches is
/// removed, the rest keep their order.
pub open spec fn spec_delete(s: Seq<AssetView>, id: Seq<char>) -> Seq<AssetView> {
    s.filter(|a: AssetView| a.id != id)
}

/// One cache entry after a delta. `New` installs a state even where none
/// existed; `Update` and `Delete` on a missing entry are no-ops and do not
/// create one.
pub open spec fn spec_apply(entry: Option<Seq<AssetView>>, m: MessageView) -> Option<
    Seq<AssetView>,
> {
    match m {
        MessageView::New(n) => Some(n),
        MessageView::Update(a) => match entry {
            Some(s) => Some(spec_update(s, a)),
            None => None,
        },
        MessageView::Delete(id) => match entry {
            Some(s) => Some(spec_delete(s, id)),
            None => None,
        },
    }
}

/// `Update(a)` keeps the sequence length and the order of ids, touches no
/// asset with a different id, overwrites the first matching asset with
/// `a`'s fields, and is a no-op when no id matches.
pub proof fn lemma_update_shape(s: Seq<AssetView>, a: AssetView)
    ensures
        spec_update(s, a).len() == s.len(),
        forall|i: int| 0 <= i < s.len() ==> (#[trigger] spec_update(s, a)[i]).id == s[i].id,
        forall|i: int| 0 <= i < s.len() && s[i].id != a.id ==> spec_update(s, a)[i] == s[i],
        first_match(s, a.id, 0) < s.len() ==> spec_update(s, a)[first_match(s, a.id, 0)] == a
            && s[first_match(s, a.id, 0)].id == a.id,
        (forall|i: int| 0 <= i < s.len() ==> (#[trigger] s[i]).id != a.id) ==> spec_update(s, a)
            == s,
{
    lemma_first_match(s, a.id, 0);
    let m = first_match(s, a.id, 0);
    if m < s.len() {
        assert(s[m].id == a.id);
        assert(forall|i: int|
            0 <= i < s.len() && s[i].id != a.id ==> spec_update(s, a)[i] == s[i]);
    } else {
        assert(spec_update(s, a) == s);
    }
}

/// `Delete` of an id that no asset carries leaves the arrangement
/// unchanged.
pub proof fn lemma_delete_absent(s: Seq<AssetView>, id: Seq<char>)
    requires
        forall|i: int| 0 <= i < s.len() ==> (#[trigger] s[i]).id != id,
    ensures
        spec_delete(s, id) == s,
    decreases s.len(),
{
    reveal(Seq::filter);
    if s.len() > 0 {
        assert(s.drop_last() =~= s.subrange(0, s.len() - 1));
        lemma_delete_absent(s.drop_last(), id);
        assert(spec_delete(s, id) =~= s);
    }
}

/// After `Delete(id)` no asset with that id remains, and every asset with
/// another id survives in order.
pub proof fn lemma_delete_shape(s: Seq<AssetView>, id: Seq<char>)
    ensures
        forall|i: int|
            0 <= i < spec_delete(s, id).len() ==> (#[trigger] spec_delete(s, id)[i]).id != id,
        forall|i: int|
            0 <= i < s.len() && (#[trigger] s[i]).id != id ==> spec_delete(s, id).contains(s[i]),
        spec_delete(s, id).len() <= s.len(),
{
    let pred = |a: AssetView| a.id != id;
    s.lemma_filter_len(pred);
    assert forall|i: int| 0 <= i < spec_delete(s, id).len() implies (#[trigger] spec_delete(
        s,
        id,
    )[i]).id != id by {
        s.lemma_filter_pred(pred, i);
    }
    assert forall|i: int|
        0 <= i < s.len() && (#[trigger] s[i]).id != id implies spec_delete(s, id).contains(
        s[i],
    ) by {
        s.lemma_filter_contains(pred, i);
    }
}

/// `filter` over a sequence extended by one element.
proof fn lemma_filter_push<A>(s: Seq<A>, x: A, pred: spec_fn(A) -> bool)
    ensures
        s.push(x).filter(pred) == if pred(x) {
            s.filter(pred).push(x)
        } else {
            s.filter(pred)
        },
{
    reveal(Seq::filter);
    assert(s.push(x).drop_last() =~= s);
    assert(s.push(x).last() == x);
}

/// A well-formed update applied to a well-formed arrangement leaves a
/// well-formed arrangement.
pub proof fn lemma_update_preserves_wf(s: Seq<AssetView>, a: AssetView)
    requires
        state_wf(s),
        asset_wf(a),
    ensures
        state_wf(spec_update(s, a)),
{
    lemma_first_match(s, a.id, 0);
}

/// Removing assets keeps the remaining ones well-formed.
pub proof fn lemma_delete_preserves_wf(s: Seq<AssetView>, id: Seq<char>)
    requires
        state_wf(s),
    ensures
        state_wf(spec_delete(s, id)),
    decreases s.len(),
{
    reveal(Seq::filter);
    if s.len() > 0 {
        assert(state_wf(s.drop_last())) by {
            assert(forall|i: int|
                0 <= i < s.drop_last().len() ==> #[trigger] s.drop_last()[i] == s[i]);
        }
        lemma_delete_preserves_wf(s.drop_last(), id);
        let pred = |a: AssetView| a.id != id;
        let sub = s.drop_last().filter(pred);
        if pred(s.last()) {
            assert(asset_wf(s.last()));
            assert(forall|i: int|
                0 <= i < sub.push(s.last()).len() ==> asset_wf(
                    #[trigger] sub.push(s.last())[i],
                ));
        }
    }
}

/// Applying a well-formed delta to a well-formed entry leaves a
/// well-formed entry (or none).
pub proof fn lemma_apply_preserves_wf(e: Option<Seq<AssetView>>, m: MessageView)
    requires
        e is Some ==> state_wf(e->0),
        message_wf(m),
    ensures
        spec_apply(e, m) is Some ==> state_wf(spec_apply(e, m)->0),
{
    match m {
        MessageView::New(_) => {},
        MessageView::Update(a) => {
            if e is Some {
                lemma_update_preserves_wf(e->0, a);
            }
        },
        MessageView::Delete(id) => {
            if e is Some {
                lemma_delete_preserves_wf(e->0, id);
            }
        },
    }
}

impl ImgfloatState {
    /// Overwrite the fields of the first asset whose id matches
    /// `upd.id`; an unknown id leaves the state unchanged.
    pub fn apply_update(&mut self, upd: &ImgfloatAsset)
        ensures
            final(self)@ == spec_update(old(self)@, upd@),
    {
        proof {
            lemma_first_match(old(self)@, upd@.id, 0);
        }
        let n = self.assets.len();
        let mut i: usize = 0;
        while i < n
            invariant
                n == self.assets@.len(),
                i <= n,
                *self == *old(self),
                first_match(self@, upd@.id, i as int) == first_match(self@, upd@.id, 0),
            decreases n - i,
    {
            if self.assets[i].id == upd.id {
                assert(first_match(self@, upd@.id, 0) == i);
                let a = &mut self.assets[i];
                a.x = upd.x.clone();
                a.y = upd.y.clone();
                a.w = upd.w.clone();
                a.h = upd.h.clone();
                a.url = upd.url.clone();
                proof {
                    assert(self@[i as int].id == upd@.id);
                    assert(self@ =~= spec_update(old(self)@, upd@));
                }
                return ;
            }
            i = i + 1;
        }
        proof {
            assert(first_match(self@, upd@.id, 0) == n);
            assert(self@ == spec_update(old(self)@, upd@));
        }
    }

    /// Remove every asset whose id matches `id`; an absent id leaves the
    /// state unchanged.
    pub fn apply_delete(&mut self, id: &String)
        ensures
            final(self)@ == spec_delete(old(self)@, id@),
    {
        let ghost pred = |a: AssetView| a.id != id@;
        let n = self.assets.len();
        let mut kept: Vec<ImgfloatAsset> = Vec::new();
        let mut i: usize = 0;
        while i < n
            invariant
                n == self.assets@.len(),
                i <= n,
                *self == *old(self),
                pred == (|a: AssetView| a.id != id@),
                Seq::new(kept@.len(), |k: int| kept@[k]@) =~= self@.subrange(0, i as int).filter(
                    pred,
                ),
            decreases n - i,
        {
            let keep = !(self.assets[i].id == *id);
            proof {
                assert(self@.subrange(0, i as int).push(self@[i as int]) =~= self@.subrange(
                    0,
                    i as int + 1,
                ));
                lemma_filter_push(self@.subrange(0, i as int), self@[i as int], pred);
            }
            if keep {
                let a = self.assets[i].clone();
                proof {
                    assert(a@ == self@[i as int]);
                }
                kept.push(a);
            }
            proof {
                assert(Seq::new(kept@.len(), |k: int| kept@[k]@) =~= self@.subrange(
                    0,
                    i as int + 1,
                ).filter(pred));
            }
            i = i + 1;
        }
        proof {
            assert(self@.subrange(0, n as int) =~= self@);
        }
        self.assets = kept;
        proof {
            assert(self@ =~= spec_delete(old(self)@, id@));
        }
    }
}

} // verus!
