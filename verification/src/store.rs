//! Per-workspace persistence of form definitions and cooldown entries.
//!
//! `State` is the durable state of the system: a keyspace of forms scoped
//! per workspace, and an ephemeral keyspace of cooldown expiries keyed by
//! (workspace, form, user). Every operation is atomic per key: it pins down
//! the looked-up key's new value and leaves every other key untouched.
//!
//! Saving a form and loading it back by its identifier returns a value
//! equal in every attribute: this round trip is stated by the `ensures` of
//! [`State::save_form`] (the saved key now maps to the saved view) together
//! with the `ensures` of [`State::get_form`] (what is returned is exactly
//! what the key maps to).
//!
//! Time is handed in by the caller: cooldown reads and writes take the
//! current time in seconds, so the contracts hold for every clock value.

use vstd::prelude::*;

use crate::field::FormField;
use crate::form::{Form, FormId, FormRef, FormView};

verus! {

/// The first value associated with `key`, scanning left to right.
pub open spec fn assoc_lookup<K, V>(s: Seq<(K, V)>, key: K) -> Option<V>
    decreases s.len(),
{
    if s.len() == 0 {
        None
    } else if s[0].0 == key {
        Some(s[0].1)
    } else {
        assoc_lookup(s.skip(1), key)
    }
}

/// No two entries carry the same key.
pub open spec fn unique_assoc_keys<K, V>(s: Seq<(K, V)>) -> bool {
    forall|i: int, j: int| 0 <= i < j < s.len() ==> (#[trigger] s[i]).0 != (#[trigger] s[j]).0
}

/// Index bridge: every later entry of `s` is an entry of `s.skip(1)`.
proof fn lemma_skip1_indices<K, V>(s: Seq<(K, V)>)
    requires
        s.len() >= 1,
    ensures
        forall|i: int| 0 <= i < s.len() - 1 ==> (#[trigger] s.skip(1)[i]) == s[i + 1],
        unique_assoc_keys(s) ==> unique_assoc_keys(s.skip(1)),
{
    assert(forall|i: int| 0 <= i < s.len() - 1 ==> (#[trigger] s.skip(1)[i]) == s[i + 1]);
    if unique_assoc_keys(s) {
        assert forall|i: int, j: int| 0 <= i < j < s.len() - 1 implies (#[trigger] s.skip(1)[i]).0
            != (#[trigger] s.skip(1)[j]).0 by {
            assert(s[i + 1].0 != s[j + 1].0);
        }
    }
}

/// A lookup misses exactly when no entry carries the key.
proof fn lemma_assoc_absent<K, V>(s: Seq<(K, V)>, key: K)
    ensures
        assoc_lookup(s, key) is None <==> (forall|i: int| 0 <= i < s.len() ==> (
        #[trigger] s[i]).0 != key),
    decreases s.len(),
{
    if s.len() != 0 {
        lemma_skip1_indices(s);
        lemma_assoc_absent(s.skip(1), key);
        if assoc_lookup(s, key) is None {
            assert(s[0].0 != key);
            assert(assoc_lookup(s.skip(1), key) is None);
            assert forall|i: int| 0 <= i < s.len() implies (#[trigger] s[i]).0 != key by {
                if i >= 1 {
                    assert(s.skip(1)[i - 1] == s[i]);
                }
            }
        } else {
            if s[0].0 == key {
            } else {
                assert(assoc_lookup(s.skip(1), key) is Some);
                let i = choose|i: int| 0 <= i < s.skip(1).len() && (#[trigger] s.skip(1)[i]).0
                    == key;
                assert(s[i + 1].0 == key);
            }
        }
    }
}

/// With unique keys, an entry's key looks up that entry's value.
proof fn lemma_assoc_found<K, V>(s: Seq<(K, V)>, k: int)
    requires
        unique_assoc_keys(s),
        0 <= k < s.len(),
    ensures
        assoc_lookup(s, s[k].0) == Some(s[k].1),
    decreases s.len(),
{
    lemma_skip1_indices(s);
    if k == 0 {
    } else {
        assert(s[0].0 != s[k].0);
        lemma_assoc_found(s.skip(1), k - 1);
        assert(s.skip(1)[k - 1] == s[k]);
    }
}

/// Appending an entry changes only its own key's lookup, and only when that
/// key was absent.
proof fn lemma_assoc_push<K, V>(s: Seq<(K, V)>, e: (K, V), key: K)
    ensures
        assoc_lookup(s.push(e), key) == (if assoc_lookup(s, key) is Some {
            assoc_lookup(s, key)
        } else if e.0 == key {
            Some(e.1)
        } else {
            None::<V>
        }),
    decreases s.len(),
{
    let t = s.push(e);
    assert(t.len() == s.len() + 1);
    if s.len() == 0 {
        assert(t[0] == e);
        assert(t.skip(1) =~= Seq::<(K, V)>::empty());
        assert(assoc_lookup(t.skip(1), key) is None);
        if e.0 == key {
            assert(assoc_lookup(t, key) == Some(e.1));
        } else {
            assert(assoc_lookup(t, key) is None);
        }
        assert(assoc_lookup(s, key) is None);
    } else {
        assert(t[0] == s[0]);
        assert(t.skip(1) =~= s.skip(1).push(e));
        lemma_assoc_push(s.skip(1), e, key);
        if s[0].0 == key {
            assert(assoc_lookup(t, key) == Some(s[0].1));
            assert(assoc_lookup(s, key) == Some(s[0].1));
        } else {
            assert(assoc_lookup(t, key) == assoc_lookup(s.skip(1).push(e), key));
            assert(assoc_lookup(s, key) == assoc_lookup(s.skip(1), key));
        }
    }
}

/// Overwriting the entry at `k` in place changes only that entry's key.
proof fn lemma_assoc_update<K, V>(s: Seq<(K, V)>, k: int, e: (K, V), key: K)
    requires
        unique_assoc_keys(s),
        0 <= k < s.len(),
        s[k].0 == e.0,
    ensures
        assoc_lookup(s.update(k, e), key) == (if e.0 == key {
            Some(e.1)
        } else {
            assoc_lookup(s, key)
        }),
    decreases s.len(),
{
    let t = s.update(k, e);
    assert(t.len() == s.len());
    lemma_skip1_indices(s);
    if k == 0 {
        assert(t[0] == e);
        assert(t.skip(1) =~= s.skip(1));
        if e.0 == key {
            assert(assoc_lookup(t, key) == Some(e.1));
        } else {
            assert(s[0].0 != key);
            assert(assoc_lookup(t, key) == assoc_lookup(s.skip(1), key));
            assert(assoc_lookup(s, key) == assoc_lookup(s.skip(1), key));
        }
    } else {
        assert(t[0] == s[0]);
        assert(s[0].0 != s[k].0);
        assert(t.skip(1) =~= s.skip(1).update(k - 1, e));
        assert(s.skip(1)[k - 1] == s[k]);
        lemma_assoc_update(s.skip(1), k - 1, e, key);
        if s[0].0 == key {
            assert(assoc_lookup(t, key) == Some(s[0].1));
            assert(assoc_lookup(s, key) == Some(s[0].1));
        } else {
            assert(assoc_lookup(t, key) == assoc_lookup(s.skip(1).update(k - 1, e), key));
            assert(assoc_lookup(s, key) == assoc_lookup(s.skip(1), key));
        }
    }
}

/// With unique keys, removing the entry at `k` clears only that entry's
/// key.
proof fn lemma_assoc_remove<K, V>(s: Seq<(K, V)>, k: int, key: K)
    requires
        unique_assoc_keys(s),
        0 <= k < s.len(),
    ensures
        assoc_lookup(s.remove(k), key) == (if s[k].0 == key {
            None::<V>
        } else {
            assoc_lookup(s, key)
        }),
    decreases s.len(),
{
    let t = s.remove(k);
    assert(t.len() == s.len() - 1);
    lemma_skip1_indices(s);
    if k == 0 {
        assert(t =~= s.skip(1));
        if s[0].0 == key {
            lemma_assoc_absent(s.skip(1), key);
            assert forall|i: int| 0 <= i < s.skip(1).len() implies (#[trigger] s.skip(1)[i]).0
                != key by {
                assert(s.skip(1)[i] == s[i + 1]);
                assert(s[0].0 != s[i + 1].0);
            }
            assert(assoc_lookup(s.skip(1), key) is None);
        } else {
            assert(assoc_lookup(s, key) == assoc_lookup(s.skip(1), key));
        }
    } else {
        assert(t[0] == s[0]);
        assert(t.skip(1) =~= s.skip(1).remove(k - 1));
        assert(s.skip(1)[k - 1] == s[k]);
        lemma_assoc_remove(s.skip(1), k - 1, key);
        if s[0].0 == key {
            assert(s[0].0 != s[k].0);
            assert(assoc_lookup(t, key) == Some(s[0].1));
            assert(assoc_lookup(s, key) == Some(s[0].1));
        } else {
            assert(assoc_lookup(t, key) == assoc_lookup(s.skip(1).remove(k - 1), key));
            assert(assoc_lookup(s, key) == assoc_lookup(s.skip(1), key));
        }
    }
}

/// The pair `p` lists the form stored at position `k`: the entry belongs
/// to the workspace and `p` carries its identifier and title.
spec fn listed_from(s: Seq<((u64, FormId), Form)>, guild_id: u64, p: (FormId, String), k: int) -> bool {
    &&& 0 <= k < s.len()
    &&& s[k].0 == (guild_id, p.0)
    &&& p.1@ == s[k].1@.title
}

/// The durable state: forms keyed by (workspace, form identifier), and
/// cooldown expiries keyed by (workspace, form identifier, user).
pub struct State {
    forms: Vec<((u64, FormId), Form)>,
    cooldowns: Vec<((u64, FormId, u64), u64)>,
}

impl State {
    /// Internal coherence: keys are unique, each form entry is keyed by its
    /// own identifier, and every stored form is well-formed.
    pub closed spec fn wf(&self) -> bool {
        &&& unique_assoc_keys(self.forms@)
        &&& unique_assoc_keys(self.cooldowns@)
        &&& (forall|i: int| 0 <= i < self.forms@.len() ==> (#[trigger] self.forms@[i]).0.1 == self.forms@[i].1@.id)
        &&& (forall|i: int| 0 <= i < self.forms@.len() ==> (#[trigger] self.forms@[i]).1.wf())
    }

    /// The form stored under (workspace, identifier), as its model.
    pub closed spec fn spec_form(&self, guild_id: u64, form_id: FormId) -> Option<FormView> {
        match assoc_lookup(self.forms@, (guild_id, form_id)) {
            Some(f) => Some(f@),
            None => None,
        }
    }

    /// The stored cooldown expiry of (workspace, form, user), in seconds.
    pub closed spec fn spec_cooldown_expiry(
        &self,
        guild_id: u64,
        form_id: FormId,
        user_id: u64,
    ) -> Option<u64> {
        assoc_lookup(self.cooldowns@, (guild_id, form_id, user_id))
    }

    /// The time left before the user may submit again, at time `now`:
    /// nothing when no entry is stored or the entry has expired.
    pub open spec fn spec_remaining(
        &self,
        guild_id: u64,
        form_id: FormId,
        user_id: u64,
        now: u64,
    ) -> Option<u64> {
        match self.spec_cooldown_expiry(guild_id, form_id, user_id) {
            Some(e) => if e > now {
                Some((e - now) as u64)
            } else {
                None
            },
            None => None,
        }
    }

    /// An empty store: no forms, no cooldown entries.
    pub fn new() -> (r: State)
        ensures
            r.wf(),
            forall|g: u64, id: FormId| (#[trigger] r.spec_form(g, id)) is None,
            forall|g: u64, id: FormId, u: u64| (#[trigger] r.spec_cooldown_expiry(g, id, u))
                is None,
    {
        State { forms: Vec::new(), cooldowns: Vec::new() }
    }

    /// Loads the form stored under the reference, if any.
    pub fn get_form(&self, form_ref: FormRef) -> (r: Option<Form>)
        requires
            self.wf(),
        ensures
            r is Some <==> self.spec_form(form_ref.guild_id, form_ref.form_id) is Some,
            r matches Some(f) ==> {
                &&& self.spec_form(form_ref.guild_id, form_ref.form_id) == Some(f@)
                &&& f.wf()
            },
    {
        let ghost key = (form_ref.guild_id, form_ref.form_id);
        proof {
            assert(self.forms@.skip(0) =~= self.forms@);
        }
        let mut i: usize = 0;
        while i < self.forms.len()
            invariant
                self.wf(),
                i <= self.forms@.len(),
                key == (form_ref.guild_id, form_ref.form_id),
                assoc_lookup(self.forms@.skip(i as int), key) == assoc_lookup(self.forms@, key),
            decreases self.forms@.len() - i,
        {
            proof {
                assert(self.forms@.skip(i as int)[0] == self.forms@[i as int]);
            }
            let entry = &self.forms[i];
            if entry.0.0 == form_ref.guild_id && entry.0.1 == form_ref.form_id {
                proof {
                    assert(self.forms@[i as int].0 == key);
                }
                return Some(entry.1.clone());
            }
            proof {
                assert(self.forms@.skip(i as int).skip(1) =~= self.forms@.skip(i as int + 1));
            }
            i += 1;
        }
        proof {
            assert(self.forms@.skip(self.forms@.len() as int) =~= Seq::<((u64, FormId), Form)>::empty());
        }
        None
    }

    /// Upserts the form under (workspace, its identifier): the whole
    /// aggregate is overwritten, and every other key keeps its value.
    pub fn save_form(&mut self, guild_id: u64, new_form: &Form)
        requires
            old(self).wf(),
            new_form.wf(),
        ensures
            final(self).wf(),
            final(self).spec_form(guild_id, new_form@.id) == Some(new_form@),
            forall|g: u64, id: FormId| (g, id) != (guild_id, new_form@.id) ==> (
            #[trigger] final(self).spec_form(g, id)) == old(self).spec_form(g, id),
            forall|g: u64, id: FormId, u: u64| (#[trigger] final(self).spec_cooldown_expiry(
                g,
                id,
                u,
            )) == old(self).spec_cooldown_expiry(g, id, u),
    {
        let id = new_form.id();
        let ghost key = (guild_id, id);
        let mut i: usize = 0;
        while i < self.forms.len()
            invariant
                self.wf(),
                *self == *old(self),
                new_form.wf(),
                id == new_form@.id,
                key == (guild_id, id),
                i <= self.forms@.len(),
                forall|k: int| 0 <= k < i ==> (#[trigger] self.forms@[k]).0 != key,
            decreases self.forms@.len() - i,
        {
            let entry = &self.forms[i];
            if entry.0.0 == guild_id && entry.0.1 == id {
                proof {
                    assert(self.forms@[i as int].0 == key);
                }
                self.forms.remove(i);
                self.forms.insert(i, ((guild_id, id), new_form.clone()));
                proof {
                    let s = old(self).forms@;
                    assert(self.forms@ =~= s.update(i as int, (key, self.forms@[i as int].1)));
                    let updated = self.forms@;
                    assert(forall|a: int| 0 <= a < updated.len() && a != i ==> (
                    #[trigger] updated[a]) == s[a]);
                    assert(updated[i as int].0 == key);
                    assert(updated[i as int].1@ == new_form@);
                    assert(unique_assoc_keys(updated));
                    assert forall|a: int| 0 <= a < updated.len() implies (#[trigger] updated[a]).0.1
                        == updated[a].1@.id && updated[a].1.wf() by {
                        if a == i as int {
                            assert(updated[a].1@ == new_form@);
                            assert(new_form.wf());
                        } else {
                            assert(updated[a] == s[a]);
                        }
                    }
                    assert forall|g: u64, fid: FormId| true implies #[trigger] assoc_lookup(
                        updated,
                        (g, fid),
                    ) == (if (g, fid) == key {
                        Some(updated[i as int].1)
                    } else {
                        assoc_lookup(s, (g, fid))
                    }) by {
                        lemma_assoc_update(s, i as int, updated[i as int], (g, fid));
                    }
                }
                return ;
            }
            i += 1;
        }
        proof {
            lemma_assoc_absent(self.forms@, key);
        }
        self.forms.push(((guild_id, id), new_form.clone()));
        proof {
            let s = old(self).forms@;
            let pushed = self.forms@;
            assert(forall|a: int| 0 <= a < s.len() ==> (#[trigger] pushed[a]) == s[a]);
            assert(pushed[s.len() as int].0 == key);
            assert(pushed[s.len() as int].1@ == new_form@);
            assert(unique_assoc_keys(pushed));
            assert forall|a: int| 0 <= a < pushed.len() implies (#[trigger] pushed[a]).0.1
                == pushed[a].1@.id && pushed[a].1.wf() by {
                if a == s.len() {
                    assert(pushed[a].1@ == new_form@);
                    assert(new_form.wf());
                } else {
                    assert(pushed[a] == s[a]);
                }
            }
            assert forall|g: u64, fid: FormId| true implies #[trigger] assoc_lookup(
                pushed,
                (g, fid),
            ) == (if (g, fid) == key {
                Some(pushed[s.len() as int].1)
            } else {
                assoc_lookup(s, (g, fid))
            }) by {
                lemma_assoc_push(s, pushed[s.len() as int], (g, fid));
                if (g, fid) == key {
                    lemma_assoc_absent(s, (g, fid));
                }
            }
        }
    }

    /// Deletes the form stored under (workspace, identifier). Reports
    /// whether an entry existed; every other key keeps its value, and
    /// cooldown entries are not touched.
    pub fn delete_form(&mut self, guild_id: u64, id: FormId) -> (r: bool)
        requires
            old(self).wf(),
        ensures
            final(self).wf(),
            r <==> old(self).spec_form(guild_id, id) is Some,
            final(self).spec_form(guild_id, id) is None,
            forall|g: u64, fid: FormId| (g, fid) != (guild_id, id) ==> (#[trigger] final(self).spec_form(g, fid)) == old(self).spec_form(g, fid),
            forall|g: u64, fid: FormId, u: u64| (#[trigger] final(self).spec_cooldown_expiry(
                g,
                fid,
                u,
            )) == old(self).spec_cooldown_expiry(g, fid, u),
    {
        let ghost key = (guild_id, id);
        let mut i: usize = 0;
        while i < self.forms.len()
            invariant
                self.wf(),
                *self == *old(self),
                key == (guild_id, id),
                i <= self.forms@.len(),
                forall|k: int| 0 <= k < i ==> (#[trigger] self.forms@[k]).0 != key,
            decreases self.forms@.len() - i,
        {
            let entry = &self.forms[i];
            if entry.0.0 == guild_id && entry.0.1 == id {
                proof {
                    assert(self.forms@[i as int].0 == key);
                    lemma_assoc_found(self.forms@, i as int);
                }
                self.forms.remove(i);
                proof {
                    let s = old(self).forms@;
                    let removed = self.forms@;
                    assert(unique_assoc_keys(removed)) by {
                        assert(forall|a: int| 0 <= a < i ==> (#[trigger] removed[a]) == s[a]);
                        assert(forall|a: int| i <= a < removed.len() ==> (#[trigger] removed[a])
                            == s[a + 1]);
                    }
                    assert forall|g: u64, fid: FormId| true implies #[trigger] assoc_lookup(
                        removed,
                        (g, fid),
                    ) == (if (g, fid) == key {
                        None
                    } else {
                        assoc_lookup(s, (g, fid))
                    }) by {
                        lemma_assoc_remove(s, i as int, (g, fid));
                    }
                }
                return true;
            }
            i += 1;
        }
        proof {
            lemma_assoc_absent(self.forms@, key);
        }
        false
    }

    /// Lists every form of the workspace as (identifier, title): each
    /// listed pair names a stored form, every stored form of the workspace
    /// is listed, and no identifier is listed twice.
    #[verifier::rlimit(50)]
    pub fn get_form_ids(&self, guild_id: u64) -> (r: Vec<(FormId, String)>)
        requires
            self.wf(),
        ensures
            forall|j: int| 0 <= j < r@.len() ==> (self.spec_form(
                guild_id,
                (#[trigger] r@[j]).0,
            ) matches Some(f) && f.title == r@[j].1@),
            forall|id: FormId| (#[trigger] self.spec_form(guild_id, id)) is Some ==> exists|j: int|
                0 <= j < r@.len() && (#[trigger] r@[j]).0 == id,
            forall|j: int, k: int| 0 <= j < k < r@.len() ==> (#[trigger] r@[j]).0 != (
            #[trigger] r@[k]).0,
    {
        let mut r: Vec<(FormId, String)> = Vec::new();
        let ghost mut wit: Seq<int> = Seq::empty();
        let ghost mut pos: Seq<int> = Seq::empty();
        let mut i: usize = 0;
        while i < self.forms.len()
            invariant
                self.wf(),
                i <= self.forms@.len(),
                wit.len() == r@.len(),
                pos.len() == i,
                forall|j: int| 0 <= j < r@.len() ==> 0 <= #[trigger] wit[j] < i && listed_from(
                    self.forms@,
                    guild_id,
                    r@[j],
                    wit[j],
                ),
                forall|j1: int, j2: int| 0 <= j1 < j2 < wit.len() ==> #[trigger] wit[j1]
                    < #[trigger] wit[j2],
                forall|k: int| #![trigger pos[k]] 0 <= k < i ==> (self.forms@[k].0.0 == guild_id
                    ==> 0 <= pos[k] < r@.len() && r@[pos[k]].0 == self.forms@[k].0.1),
            decreases self.forms@.len() - i,
        {
            let entry = &self.forms[i];
            if entry.0.0 == guild_id {
                let ghost prev = r@;
                r.push((entry.0.1, entry.1.title_string()));
                proof {
                    let last = r@.len() - 1;
                    assert(r@[last].0 == self.forms@[i as int].0.1);
                    assert(self.forms@[i as int].0 == (guild_id, r@[last].0));
                    assert(listed_from(self.forms@, guild_id, r@[last], i as int));
                    assert(forall|j: int| 0 <= j < last ==> (#[trigger] r@[j]) == prev[j]);
                    let prev_pos = pos;
                    wit = wit.push(i as int);
                    pos = pos.push(last);
                    assert forall|j: int| 0 <= j < r@.len() implies 0 <= #[trigger] wit[j] < i + 1
                        && listed_from(self.forms@, guild_id, r@[j], wit[j]) by {
                        if j < last {
                            assert(r@[j] == prev[j]);
                        } else {
                            assert(wit[j] == i as int);
                        }
                    }
                    assert forall|k: int| #![trigger pos[k]] 0 <= k < i + 1 implies (
                    self.forms@[k].0.0 == guild_id ==> 0 <= pos[k] < r@.len() && r@[pos[k]].0
                        == self.forms@[k].0.1) by {
                        if k < i as int {
                            assert(pos[k] == prev_pos[k]);
                        } else {
                            assert(pos[k] == last);
                        }
                    }
                }
            } else {
                proof {
                    pos = pos.push(-1);
                }
            }
            i += 1;
        }
        proof {
            assert forall|j: int| 0 <= j < r@.len() implies (self.spec_form(
                guild_id,
                (#[trigger] r@[j]).0,
            ) matches Some(f) && f.title == r@[j].1@) by {
                lemma_assoc_found(self.forms@, wit[j]);
            }
            assert forall|id: FormId| (#[trigger] self.spec_form(guild_id, id)) is Some implies exists|
                j: int,
            | 0 <= j < r@.len() && (#[trigger] r@[j]).0 == id by {
                lemma_assoc_absent(self.forms@, (guild_id, id));
                let k = choose|k: int|
                    0 <= k < self.forms@.len() && (#[trigger] self.forms@[k]).0 == (guild_id, id);
                assert(self.forms@[k].0.0 == guild_id);
                assert(r@[pos[k]].0 == id);
            }
            assert forall|j1: int, j2: int| 0 <= j1 < j2 < r@.len() implies (#[trigger] r@[j1]).0
                != (#[trigger] r@[j2]).0 by {
                if r@[j1].0 == r@[j2].0 {
                    assert(listed_from(self.forms@, guild_id, r@[j1], wit[j1]));
                    assert(listed_from(self.forms@, guild_id, r@[j2], wit[j2]));
                    assert(self.forms@[wit[j1]].0 == self.forms@[wit[j2]].0);
                    assert(wit[j1] < wit[j2]);
                }
            }
        }
        r
    }

    /// Loads only the field sequence of the form stored under the
    /// reference, if any.
    pub fn get_fields(&self, form_ref: FormRef) -> (r: Option<Vec<FormField>>)
        requires
            self.wf(),
        ensures
            r is Some <==> self.spec_form(form_ref.guild_id, form_ref.form_id) is Some,
            r matches Some(v) ==> self.spec_form(form_ref.guild_id, form_ref.form_id) matches Some(
                f,
            ) && v@ == f.fields,
    {
        match self.get_form(form_ref) {
            Some(form) => Some(form.into_fields()),
            None => None,
        }
    }

    /// Reads the time left before the user may submit the form again, at
    /// time `now` (in seconds): nothing when the user is unrestricted.
    pub fn cooldown(&self, form_ref: FormRef, user_id: u64, now: u64) -> (r: Option<u64>)
        requires
            self.wf(),
        ensures
            r == self.spec_remaining(form_ref.guild_id, form_ref.form_id, user_id, now),
    {
        let ghost key = (form_ref.guild_id, form_ref.form_id, user_id);
        proof {
            assert(self.cooldowns@.skip(0) =~= self.cooldowns@);
        }
        let mut i: usize = 0;
        while i < self.cooldowns.len()
            invariant
                self.wf(),
                i <= self.cooldowns@.len(),
                key == (form_ref.guild_id, form_ref.form_id, user_id),
                assoc_lookup(self.cooldowns@.skip(i as int), key) == assoc_lookup(
                    self.cooldowns@,
                    key,
                ),
            decreases self.cooldowns@.len() - i,
        {
            proof {
                assert(self.cooldowns@.skip(i as int)[0] == self.cooldowns@[i as int]);
            }
            let entry = &self.cooldowns[i];
            if entry.0.0 == form_ref.guild_id && entry.0.1 == form_ref.form_id && entry.0.2
                == user_id {
                proof {
                    assert(self.cooldowns@[i as int].0 == key);
                }
                let expires_at = entry.1;
                if expires_at > now {
                    return Some(expires_at - now);
                } else {
                    return None;
                }
            }
            proof {
                assert(self.cooldowns@.skip(i as int).skip(1) =~= self.cooldowns@.skip(
                    i as int + 1,
                ));
            }
            i += 1;
        }
        proof {
            assert(self.cooldowns@.skip(self.cooldowns@.len() as int) =~= Seq::<
                ((u64, FormId, u64), u64),
            >::empty());
        }
        None
    }

    /// Creates or overwrites the cooldown entry of (workspace, form, user)
    /// with the form's cooldown duration, measured from `now` (in
    /// seconds). A form without a cooldown leaves the store untouched.
    /// Forms and every other cooldown key keep their values.
    pub fn trigger_cooldown(&mut self, guild_id: u64, form: &Form, user_id: u64, now: u64)
        requires
            old(self).wf(),
            form@.cooldown matches Some(d) ==> now + d <= u64::MAX,
        ensures
            final(self).wf(),
            form@.cooldown is None ==> *final(self) == *old(self),
            form@.cooldown matches Some(d) ==> {
                &&& final(self).spec_cooldown_expiry(guild_id, form@.id, user_id) == Some(
                    (now + d) as u64,
                )
                &&& (forall|g: u64, fid: FormId, u: u64|
                    (g, fid, u) != (guild_id, form@.id, user_id) ==> (#[trigger] final(self).spec_cooldown_expiry(g, fid, u)) == old(self).spec_cooldown_expiry(g, fid, u))
                &&& (forall|g: u64, fid: FormId| (#[trigger] final(self).spec_form(g, fid)) == old(self).spec_form(g, fid))
            },
    {
        let duration = match form.cooldown() {
            Some(d) => d,
            None => {
                return ;
            },
        };
        let id = form.id();
        let expires_at = now + duration;
        let ghost key = (guild_id, id, user_id);
        let mut i: usize = 0;
        while i < self.cooldowns.len()
            invariant
                self.wf(),
                *self == *old(self),
                id == form@.id,
                key == (guild_id, id, user_id),
                form@.cooldown == Some(duration),
                expires_at == now + duration,
                i <= self.cooldowns@.len(),
                forall|k: int| 0 <= k < i ==> (#[trigger] self.cooldowns@[k]).0 != key,
            decreases self.cooldowns@.len() - i,
        {
            let entry = &self.cooldowns[i];
            if entry.0.0 == guild_id && entry.0.1 == id && entry.0.2 == user_id {
                proof {
                    assert(self.cooldowns@[i as int].0 == key);
                }
                self.cooldowns.remove(i);
                self.cooldowns.insert(i, ((guild_id, id, user_id), expires_at));
                proof {
                    let s = old(self).cooldowns@;
                    assert(self.cooldowns@ =~= s.update(i as int, (key, expires_at)));
                    let updated = self.cooldowns@;
                    assert(unique_assoc_keys(updated)) by {
                        assert(forall|a: int| 0 <= a < updated.len() && a != i ==> (
                        #[trigger] updated[a]) == s[a]);
                    }
                    assert forall|g: u64, fid: FormId, u: u64| true implies #[trigger] assoc_lookup(
                        updated,
                        (g, fid, u),
                    ) == (if (g, fid, u) == key {
                        Some(expires_at)
                    } else {
                        assoc_lookup(s, (g, fid, u))
                    }) by {
                        lemma_assoc_update(s, i as int, (key, expires_at), (g, fid, u));
                    }
                }
                return ;
            }
            i += 1;
        }
        proof {
            lemma_assoc_absent(self.cooldowns@, key);
        }
        self.cooldowns.push(((guild_id, id, user_id), expires_at));
        proof {
            let s = old(self).cooldowns@;
            let pushed = self.cooldowns@;
            assert(unique_assoc_keys(pushed)) by {
                assert(forall|a: int| 0 <= a < s.len() ==> (#[trigger] pushed[a]) == s[a]);
                assert(pushed[s.len() as int].0 == key);
            }
            assert forall|g: u64, fid: FormId, u: u64| true implies #[trigger] assoc_lookup(
                pushed,
                (g, fid, u),
            ) == (if (g, fid, u) == key {
                Some(expires_at)
            } else {
                assoc_lookup(s, (g, fid, u))
            }) by {
                lemma_assoc_push(s, (key, expires_at), (g, fid, u));
                if (g, fid, u) == key {
                    lemma_assoc_absent(s, (g, fid, u));
                }
            }
        }
    }

    /// Removes the cooldown entry of (workspace, form, user). Reports
    /// whether an entry existed; forms and every other cooldown key keep
    /// their values.
    pub fn clear_cooldown(&mut self, form_ref: FormRef, user_id: u64) -> (r: bool)
        requires
            old(self).wf(),
        ensures
            final(self).wf(),
            r <==> old(self).spec_cooldown_expiry(form_ref.guild_id, form_ref.form_id, user_id)
                is Some,
            final(self).spec_cooldown_expiry(form_ref.guild_id, form_ref.form_id, user_id) is None,
            forall|g: u64, fid: FormId, u: u64|
                (g, fid, u) != (form_ref.guild_id, form_ref.form_id, user_id) ==> (#[trigger] final(self).spec_cooldown_expiry(g, fid, u)) == old(self).spec_cooldown_expiry(g, fid, u),
            forall|g: u64, fid: FormId| (#[trigger] final(self).spec_form(g, fid)) == old(self).spec_form(g, fid),
    {
        let ghost key = (form_ref.guild_id, form_ref.form_id, user_id);
        let mut i: usize = 0;
        while i < self.cooldowns.len()
            invariant
                self.wf(),
                *self == *old(self),
                key == (form_ref.guild_id, form_ref.form_id, user_id),
                i <= self.cooldowns@.len(),
                forall|k: int| 0 <= k < i ==> (#[trigger] self.cooldowns@[k]).0 != key,
            decreases self.cooldowns@.len() - i,
        {
            let entry = &self.cooldowns[i];
            if entry.0.0 == form_ref.guild_id && entry.0.1 == form_ref.form_id && entry.0.2
                == user_id {
                proof {
                    assert(self.cooldowns@[i as int].0 == key);
                    lemma_assoc_found(self.cooldowns@, i as int);
                }
                self.cooldowns.remove(i);
                proof {
                    let s = old(self).cooldowns@;
                    let removed = self.cooldowns@;
                    assert(unique_assoc_keys(removed)) by {
                        assert(forall|a: int| 0 <= a < i ==> (#[trigger] removed[a]) == s[a]);
                        assert(forall|a: int| i <= a < removed.len() ==> (#[trigger] removed[a])
                            == s[a + 1]);
                    }
                    assert forall|g: u64, fid: FormId, u: u64| true implies #[trigger] assoc_lookup(
                        removed,
                        (g, fid, u),
                    ) == (if (g, fid, u) == key {
                        None
                    } else {
                        assoc_lookup(s, (g, fid, u))
                    }) by {
                        lemma_assoc_remove(s, i as int, (g, fid, u));
                    }
                }
                return true;
            }
            i += 1;
        }
        proof {
            lemma_assoc_absent(self.cooldowns@, key);
        }
        false
    }
}

/// A triggered cooldown is visible, positive, and within the duration
/// until its expiry passes, and invisible afterwards: with the expiry that
/// `trigger_cooldown` writes at time `t`, a query at any later time `t2`
/// reads a positive remainder of at most the duration while `t2` lies
/// before the expiry, and nothing once it does not.
pub proof fn lemma_trigger_then_remaining(
    s: State,
    guild_id: u64,
    form_id: FormId,
    user_id: u64,
    d: u64,
    t: u64,
    t2: u64,
)
    requires
        t + d <= u64::MAX,
        d > 0,
        t <= t2,
        s.spec_cooldown_expiry(guild_id, form_id, user_id) == Some((t + d) as u64),
    ensures
        t2 < t + d ==> (s.spec_remaining(guild_id, form_id, user_id, t2) matches Some(r) && 0 < r
            <= d),
        t2 >= t + d ==> s.spec_remaining(guild_id, form_id, user_id, t2) is None,
{
}

/// A user without a stored cooldown entry — in particular, right after
/// `clear_cooldown` — is unrestricted at every time.
pub proof fn lemma_cleared_remaining(
    s: State,
    guild_id: u64,
    form_id: FormId,
    user_id: u64,
    now: u64,
)
    requires
        s.spec_cooldown_expiry(guild_id, form_id, user_id) is None,
    ensures
        s.spec_remaining(guild_id, form_id, user_id, now) is None,
{
}

} // verus!
