//! The reconciliation engine: classifies desired and existing secret names
//! into create, update and delete actions.
//!
//! `reconcile` is pure and deterministic. For each desired secret, in input
//! order, it emits `Update` if the name is already on the store and `Create`
//! otherwise; then, for each existing secret in input order, it emits
//! `Delete` if the name is no longer desired. Matching is exact and
//! case-sensitive; duplicates are not merged, so a duplicated desired name
//! yields two independent actions against the same name.

use vstd::prelude::*;

use crate::model::{ExistingSecret, ExistingSecretView, Secret, SecretView};

verus! {

/// One action of a reconciliation pass. The three variants partition the
/// union of the desired and existing names: a desired name becomes `Create`
/// or `Update`, an existing name that is no longer desired becomes `Delete`.
pub enum SyncAction {
    /// Register a secret that is not yet on the store.
    Create { name: String, value: String },
    /// Re-seal and overwrite a secret that is already on the store.
    Update { name: String, value: String },
    /// Remove a secret that is no longer desired.
    Delete { name: String },
}

/// Spec-level image of a `SyncAction`.
pub ghost enum SyncActionView {
    Create { name: Seq<char>, value: Seq<char> },
    Update { name: Seq<char>, value: Seq<char> },
    Delete { name: Seq<char> },
}

impl View for SyncAction {
    type V = SyncActionView;

    open spec fn view(&self) -> SyncActionView {
        match self {
            SyncAction::Create { name, value } => SyncActionView::Create {
                name: name@,
                value: value@,
            },
            SyncAction::Update { name, value } => SyncActionView::Update {
                name: name@,
                value: value@,
            },
            SyncAction::Delete { name } => SyncActionView::Delete { name: name@ },
        }
    }
}

impl DeepView for SyncAction {
    type V = SyncActionView;

    open spec fn deep_view(&self) -> SyncActionView {
        self.view()
    }
}

/// The name an action is keyed by.
pub open spec fn action_name(a: SyncActionView) -> Seq<char> {
    match a {
        SyncActionView::Create { name, .. } => name,
        SyncActionView::Update { name, .. } => name,
        SyncActionView::Delete { name } => name,
    }
}

/// The plaintext value an action carries; empty for a delete, which carries
/// none.
pub open spec fn action_value(a: SyncActionView) -> Seq<char> {
    match a {
        SyncActionView::Create { value, .. } => value,
        SyncActionView::Update { value, .. } => value,
        SyncActionView::Delete { .. } => Seq::empty(),
    }
}

/// An action that writes a sealed value to the store (create or update), as
/// opposed to a delete.
pub open spec fn is_upsert(a: SyncActionView) -> bool {
    a is Create || a is Update
}

/// Whether some existing secret carries this name.
pub open spec fn existing_has_name(e: Seq<ExistingSecretView>, n: Seq<char>) -> bool {
    exists|i: int| 0 <= i < e.len() && e[i].name == n
}

/// Whether some desired secret carries this name.
pub open spec fn desired_has_name(d: Seq<SecretView>, n: Seq<char>) -> bool {
    exists|i: int| 0 <= i < d.len() && d[i].name == n
}

/// The action one desired secret becomes: an update if its name is already
/// on the store, a create otherwise.
pub open spec fn upsert_action(s: SecretView, e: Seq<ExistingSecretView>) -> SyncActionView {
    if existing_has_name(e, s.name) {
        SyncActionView::Update { name: s.name, value: s.value }
    } else {
        SyncActionView::Create { name: s.name, value: s.value }
    }
}

/// The create and update actions of a pass: one per desired secret, in
/// input order.
pub open spec fn spec_upserts(d: Seq<SecretView>, e: Seq<ExistingSecretView>) -> Seq<
    SyncActionView,
> {
    d.map_values(|s: SecretView| upsert_action(s, e))
}

/// Whether one existing secret is to be deleted: its name is no longer
/// desired.
pub open spec fn delete_pred(d: Seq<SecretView>) -> spec_fn(ExistingSecretView) -> bool {
    |x: ExistingSecretView| !desired_has_name(d, x.name)
}

/// The delete actions of a pass: one per existing secret whose name is no
/// longer desired, in input order.
pub open spec fn spec_deletes(d: Seq<SecretView>, e: Seq<ExistingSecretView>) -> Seq<
    SyncActionView,
> {
    e.filter(delete_pred(d)).map_values(
        |x: ExistingSecretView| SyncActionView::Delete { name: x.name },
    )
}

/// Filtering one element more of a sequence keeps the filtered prefix and
/// appends the element exactly when the predicate holds of it.
pub(crate) proof fn lemma_filter_take_step<A>(s: Seq<A>, p: spec_fn(A) -> bool, j: int)
    requires
        0 <= j < s.len(),
    ensures
        p(s[j]) ==> s.take(j + 1).filter(p) == s.take(j).filter(p).push(s[j]),
        !p(s[j]) ==> s.take(j + 1).filter(p) == s.take(j).filter(p),
{
    reveal_with_fuel(Seq::<_>::filter, 2);
    let a = s.take(j + 1);
    assert(a.drop_last() =~= s.take(j));
    assert(a.last() == s[j]);
}

/// Extending the existing secrets by one entry extends the delete actions
/// by one exactly when that entry's name is not desired.
proof fn lemma_deletes_take_step(d: Seq<SecretView>, e: Seq<ExistingSecretView>, j: int)
    requires
        0 <= j < e.len(),
    ensures
        desired_has_name(d, e[j].name) ==> spec_deletes(d, e.take(j + 1)) == spec_deletes(
            d,
            e.take(j),
        ),
        !desired_has_name(d, e[j].name) ==> spec_deletes(d, e.take(j + 1)) == spec_deletes(
            d,
            e.take(j),
        ).push(SyncActionView::Delete { name: e[j].name }),
{
    let p = delete_pred(d);
    lemma_filter_take_step(e, p, j);
    if !desired_has_name(d, e[j].name) {
        assert(spec_deletes(d, e.take(j + 1)) =~= spec_deletes(d, e.take(j)).push(
            SyncActionView::Delete { name: e[j].name },
        ));
    }
}

/// What a reconciliation pass produces: all creates and updates, in desired
/// order, followed by all deletes, in existing order.
pub open spec fn spec_reconcile(d: Seq<SecretView>, e: Seq<ExistingSecretView>) -> Seq<
    SyncActionView,
> {
    spec_upserts(d, e) + spec_deletes(d, e)
}

/// The names of the desired secrets, as a set.
pub open spec fn desired_names(d: Seq<SecretView>) -> Set<Seq<char>> {
    d.map_values(|s: SecretView| s.name).to_set()
}

/// The names of the existing secrets, as a set.
pub open spec fn existing_names(e: Seq<ExistingSecretView>) -> Set<Seq<char>> {
    e.map_values(|x: ExistingSecretView| x.name).to_set()
}

/// Whether an action is a create.
pub open spec fn create_pred() -> spec_fn(SyncActionView) -> bool {
    |a: SyncActionView| a is Create
}

/// Whether an action is an update.
pub open spec fn update_pred() -> spec_fn(SyncActionView) -> bool {
    |a: SyncActionView| a is Update
}

/// Whether an action is a delete.
pub open spec fn del_pred() -> spec_fn(SyncActionView) -> bool {
    |a: SyncActionView| a is Delete
}

/// Whether an action is keyed by the name `n`.
pub open spec fn name_pred(n: Seq<char>) -> spec_fn(SyncActionView) -> bool {
    |a: SyncActionView| action_name(a) == n
}

/// How many of the actions are creates.
pub open spec fn count_creates(acts: Seq<SyncActionView>) -> nat {
    acts.filter(create_pred()).len()
}

/// How many of the actions are updates.
pub open spec fn count_updates(acts: Seq<SyncActionView>) -> nat {
    acts.filter(update_pred()).len()
}

/// How many of the actions are deletes.
pub open spec fn count_deletes(acts: Seq<SyncActionView>) -> nat {
    acts.filter(del_pred()).len()
}

/// How many of the actions are keyed by the name `n`.
pub open spec fn count_with_name(acts: Seq<SyncActionView>, n: Seq<char>) -> nat {
    acts.filter(name_pred(n)).len()
}

/// Whether any of `existing` carries the name `name`.
pub(crate) fn existing_contains(existing: &Vec<ExistingSecret>, name: &String) -> (found: bool)
    ensures
        found == existing_has_name(existing.deep_view(), name@),
{
    let ghost e = existing.deep_view();
    let mut i: usize = 0;
    while i < existing.len()
        invariant
            0 <= i <= existing.len(),
            e == existing.deep_view(),
            e.len() == existing.len(),
            forall|j: int| 0 <= j < i ==> e[j].name != name@,
        decreases existing.len() - i,
    {
        if existing[i].name == *name {
            assert(e[i as int].name == name@);
            return true;
        }
        i += 1;
    }
    false
}

/// Whether any of `desired` carries the name `name`.
pub(crate) fn desired_contains(desired: &Vec<Secret>, name: &String) -> (found: bool)
    ensures
        found == desired_has_name(desired.deep_view(), name@),
{
    let ghost d = desired.deep_view();
    let mut i: usize = 0;
    while i < desired.len()
        invariant
            0 <= i <= desired.len(),
            d == desired.deep_view(),
            d.len() == desired.len(),
            forall|j: int| 0 <= j < i ==> d[j].name != name@,
        decreases desired.len() - i,
    {
        if desired[i].name == *name {
            assert(d[i as int].name == name@);
            return true;
        }
        i += 1;
    }
    false
}

/// Computes the actions that bring the store in line with `desired`: an
/// `Update` for each desired name already on the store and a `Create` for
/// each one that is not, in desired order, then a `Delete` for each existing
/// name no longer desired, in existing order. Pure; duplicates are kept as
/// independent actions.
pub fn reconcile(desired: &Vec<Secret>, existing: &Vec<ExistingSecret>) -> (actions: Vec<
    SyncAction,
>)
    ensures
        actions.deep_view() == spec_reconcile(desired.deep_view(), existing.deep_view()),
{
    let ghost d = desired.deep_view();
    let ghost e = existing.deep_view();
    let mut actions: Vec<SyncAction> = Vec::new();

    let mut i: usize = 0;
    while i < desired.len()
        invariant
            0 <= i <= desired.len(),
            d == desired.deep_view(),
            e == existing.deep_view(),
            d.len() == desired.len(),
            actions.deep_view() == spec_upserts(d.take(i as int), e),
        decreases desired.len() - i,
    {
        let s = &desired[i];
        let action = if existing_contains(existing, &s.name) {
            SyncAction::Update { name: s.name.clone(), value: s.value.clone() }
        } else {
            SyncAction::Create { name: s.name.clone(), value: s.value.clone() }
        };
        proof {
            assert(action@ == upsert_action(d[i as int], e));
        }
        actions.push(action);
        proof {
            assert(actions.deep_view() =~= spec_upserts(d.take(i as int), e).push(
                upsert_action(d[i as int], e),
            ));
            assert(spec_upserts(d.take(i as int + 1), e) =~= spec_upserts(d.take(i as int), e).push(
                upsert_action(d[i as int], e),
            ));
        }
        i += 1;
    }
    proof {
        assert(d.take(desired.len() as int) =~= d);
    }

    let mut j: usize = 0;
    while j < existing.len()
        invariant
            0 <= j <= existing.len(),
            d == desired.deep_view(),
            e == existing.deep_view(),
            e.len() == existing.len(),
            actions.deep_view() == spec_upserts(d, e) + spec_deletes(d, e.take(j as int)),
        decreases existing.len() - j,
    {
        let x = &existing[j];
        proof {
            lemma_deletes_take_step(d, e, j as int);
        }
        if !desired_contains(desired, &x.name) {
            let action = SyncAction::Delete { name: x.name.clone() };
            actions.push(action);
            proof {
                let del = SyncActionView::Delete { name: e[j as int].name };
                let prefix = spec_upserts(d, e) + spec_deletes(d, e.take(j as int));
                assert(actions.deep_view() =~= prefix.push(del));
                assert(prefix.push(del) =~= spec_upserts(d, e) + spec_deletes(
                    d,
                    e.take(j as int),
                ).push(del));
            }
        }
        j += 1;
    }
    proof {
        assert(e.take(existing.len() as int) =~= e);
    }
    actions
}

/// Filtering with a predicate that holds of every element keeps the
/// sequence as it is.
pub(crate) proof fn lemma_filter_all_true<A>(s: Seq<A>, p: spec_fn(A) -> bool)
    requires
        forall|i: int| 0 <= i < s.len() ==> p(#[trigger] s[i]),
    ensures
        s.filter(p) == s,
    decreases s.len(),
{
    reveal_with_fuel(Seq::<_>::filter, 2);
    if s.len() == 0 {
        assert(s.filter(p) =~= s);
    } else {
        lemma_filter_all_true(s.drop_last(), p);
        assert(p(s.last()));
        assert(s.drop_last().push(s.last()) =~= s);
    }
}

/// Filtering with a predicate that holds of no element leaves nothing.
pub(crate) proof fn lemma_filter_all_false<A>(s: Seq<A>, p: spec_fn(A) -> bool)
    requires
        forall|i: int| 0 <= i < s.len() ==> !p(#[trigger] s[i]),
    ensures
        s.filter(p) == Seq::<A>::empty(),
    decreases s.len(),
{
    reveal_with_fuel(Seq::<_>::filter, 2);
    if s.len() == 0 {
        assert(s.filter(p) =~= Seq::<A>::empty());
    } else {
        lemma_filter_all_false(s.drop_last(), p);
        assert(!p(s.last()));
    }
}

/// A name is in the desired name set exactly when some desired secret
/// carries it.
pub proof fn lemma_desired_names_contains(d: Seq<SecretView>, n: Seq<char>)
    ensures
        desired_names(d).contains(n) <==> desired_has_name(d, n),
{
    broadcast use vstd::set::group_set_axioms;

    let names = d.map_values(|s: SecretView| s.name);
    if desired_has_name(d, n) {
        let i = choose|i: int| 0 <= i < d.len() && d[i].name == n;
        assert(names[i] == n);
        assert(names.contains(n));
    }
    if names.contains(n) {
        let i = choose|i: int| 0 <= i < names.len() && names[i] == n;
        assert(d[i].name == n);
    }
}

/// A name is in the existing name set exactly when some existing secret
/// carries it.
pub proof fn lemma_existing_names_contains(e: Seq<ExistingSecretView>, n: Seq<char>)
    ensures
        existing_names(e).contains(n) <==> existing_has_name(e, n),
{
    broadcast use vstd::set::group_set_axioms;

    let names = e.map_values(|x: ExistingSecretView| x.name);
    if existing_has_name(e, n) {
        let i = choose|i: int| 0 <= i < e.len() && e[i].name == n;
        assert(names[i] == n);
        assert(names.contains(n));
    }
    if names.contains(n) {
        let i = choose|i: int| 0 <= i < names.len() && names[i] == n;
        assert(e[i].name == n);
    }
}

/// Counts of the create and update actions alone: one action per desired
/// secret, split by whether the name is already on the store.
proof fn lemma_upsert_counts(d: Seq<SecretView>, e: Seq<ExistingSecretView>)
    requires
        d.map_values(|s: SecretView| s.name).no_duplicates(),
    ensures
        count_creates(spec_upserts(d, e)) == desired_names(d).difference(existing_names(e)).len(),
        count_updates(spec_upserts(d, e)) == desired_names(d).intersect(existing_names(e)).len(),
        count_deletes(spec_upserts(d, e)) == 0,
    decreases d.len(),
{
    broadcast use vstd::set::group_set_axioms;
    broadcast use vstd::seq_lib::seq_to_set_is_finite;

    reveal_with_fuel(Seq::<_>::filter, 2);
    let dn = desired_names(d);
    let en = existing_names(e);
    let u = spec_upserts(d, e);
    if d.len() == 0 {
        assert(u =~= Seq::<SyncActionView>::empty());
        assert(dn =~= Set::<Seq<char>>::empty());
        assert(dn.difference(en) =~= Set::<Seq<char>>::empty());
        assert(dn.intersect(en) =~= Set::<Seq<char>>::empty());
    } else {
        let d0 = d.drop_last();
        let s = d.last();
        let names = d.map_values(|sv: SecretView| sv.name);
        let names0 = d0.map_values(|sv: SecretView| sv.name);
        assert(names.drop_last() =~= names0);
        lemma_upsert_counts(d0, e);
        let dn0 = desired_names(d0);
        assert(!names0.contains(s.name)) by {
            if names0.contains(s.name) {
                let i = choose|i: int| 0 <= i < names0.len() && names0[i] == s.name;
                assert(names[i] == names[d.len() - 1]);
            }
        }
        assert(names =~= names0 + seq![s.name]);
        Seq::lemma_to_set_insert_commutes(names0, s.name);
        assert(dn == dn0.insert(s.name));
        let y = upsert_action(s, e);
        let u0 = spec_upserts(d0, e);
        assert(u == u0.push(y)) by {
            assert(u =~= u0.push(y));
        }
        assert(u.drop_last() == u0) by {
            assert(u0.push(y).drop_last() =~= u0);
        }
        vstd::set_lib::lemma_set_subset_finite(dn0, dn0.difference(en));
        vstd::set_lib::lemma_set_subset_finite(dn0, dn0.intersect(en));
        if existing_has_name(e, s.name) {
            lemma_existing_names_contains(e, s.name);
            assert(y is Update);
            assert(dn.difference(en) =~= dn0.difference(en));
            assert(dn.intersect(en) =~= dn0.intersect(en).insert(s.name));
            assert(!dn0.intersect(en).contains(s.name));
        } else {
            lemma_existing_names_contains(e, s.name);
            assert(y is Create);
            assert(dn.intersect(en) =~= dn0.intersect(en));
            assert(dn.difference(en) =~= dn0.difference(en).insert(s.name));
            assert(!dn0.difference(en).contains(s.name));
        }
    }
}

/// Counts of the delete actions alone: one per existing secret whose name
/// is no longer desired.
proof fn lemma_delete_counts(d: Seq<SecretView>, e: Seq<ExistingSecretView>)
    requires
        e.map_values(|x: ExistingSecretView| x.name).no_duplicates(),
    ensures
        count_deletes(spec_deletes(d, e)) == existing_names(e).difference(desired_names(d)).len(),
        count_creates(spec_deletes(d, e)) == 0,
        count_updates(spec_deletes(d, e)) == 0,
    decreases e.len(),
{
    broadcast use vstd::set::group_set_axioms;
    broadcast use vstd::seq_lib::seq_to_set_is_finite;

    reveal_with_fuel(Seq::<_>::filter, 2);
    let dn = desired_names(d);
    let en = existing_names(e);
    let del = spec_deletes(d, e);
    if e.len() == 0 {
        assert(del =~= Seq::<SyncActionView>::empty());
        assert(en =~= Set::<Seq<char>>::empty());
        assert(en.difference(dn) =~= Set::<Seq<char>>::empty());
    } else {
        let e0 = e.drop_last();
        let x = e.last();
        let names = e.map_values(|xv: ExistingSecretView| xv.name);
        let names0 = e0.map_values(|xv: ExistingSecretView| xv.name);
        assert(names.drop_last() =~= names0);
        lemma_delete_counts(d, e0);
        let en0 = existing_names(e0);
        assert(!names0.contains(x.name)) by {
            if names0.contains(x.name) {
                let i = choose|i: int| 0 <= i < names0.len() && names0[i] == x.name;
                assert(names[i] == names[e.len() - 1]);
            }
        }
        assert(names =~= names0 + seq![x.name]);
        Seq::lemma_to_set_insert_commutes(names0, x.name);
        assert(en == en0.insert(x.name));
        let del0 = spec_deletes(d, e0);
        assert(e.drop_last() == e0);
        vstd::set_lib::lemma_set_subset_finite(en0, en0.difference(dn));
        lemma_desired_names_contains(d, x.name);
        if desired_has_name(d, x.name) {
            assert(e.filter(delete_pred(d)) == e0.filter(delete_pred(d)));
            assert(del =~= del0);
            assert(en.difference(dn) =~= en0.difference(dn));
        } else {
            assert(e.filter(delete_pred(d)) == e0.filter(delete_pred(d)).push(x));
            assert(del =~= del0.push(SyncActionView::Delete { name: x.name }));
            assert(del.drop_last() =~= del0);
            assert(en.difference(dn) =~= en0.difference(dn).insert(x.name));
            assert(!en0.difference(dn).contains(x.name));
        }
    }
}

/// Among the create and update actions, a name occurs once if it is
/// desired and never otherwise.
proof fn lemma_upsert_name_count(d: Seq<SecretView>, e: Seq<ExistingSecretView>, n: Seq<char>)
    requires
        d.map_values(|s: SecretView| s.name).no_duplicates(),
    ensures
        count_with_name(spec_upserts(d, e), n) == if desired_names(d).contains(n) {
            1nat
        } else {
            0nat
        },
    decreases d.len(),
{
    broadcast use vstd::set::group_set_axioms;

    reveal_with_fuel(Seq::<_>::filter, 2);
    let dn = desired_names(d);
    let u = spec_upserts(d, e);
    if d.len() == 0 {
        assert(u =~= Seq::<SyncActionView>::empty());
        assert(dn =~= Set::<Seq<char>>::empty());
    } else {
        let d0 = d.drop_last();
        let s = d.last();
        let names = d.map_values(|sv: SecretView| sv.name);
        let names0 = d0.map_values(|sv: SecretView| sv.name);
        assert(names.drop_last() =~= names0);
        lemma_upsert_name_count(d0, e, n);
        let dn0 = desired_names(d0);
        assert(!names0.contains(s.name)) by {
            if names0.contains(s.name) {
                let i = choose|i: int| 0 <= i < names0.len() && names0[i] == s.name;
                assert(names[i] == names[d.len() - 1]);
            }
        }
        assert(names =~= names0 + seq![s.name]);
        Seq::lemma_to_set_insert_commutes(names0, s.name);
        assert(dn == dn0.insert(s.name));
        let y = upsert_action(s, e);
        let u0 = spec_upserts(d0, e);
        assert(u == u0.push(y)) by {
            assert(u =~= u0.push(y));
        }
        assert(u.drop_last() == u0) by {
            assert(u0.push(y).drop_last() =~= u0);
        }
        assert(action_name(y) == s.name);
        if s.name == n {
            lemma_desired_names_contains(d0, n);
            assert(!dn0.contains(n));
        }
    }
}

/// Among the delete actions, a name occurs once if it is existing and not
/// desired, and never otherwise.
proof fn lemma_delete_name_count(d: Seq<SecretView>, e: Seq<ExistingSecretView>, n: Seq<char>)
    requires
        e.map_values(|x: ExistingSecretView| x.name).no_duplicates(),
    ensures
        count_with_name(spec_deletes(d, e), n) == if existing_names(e).contains(n)
            && !desired_names(d).contains(n) {
            1nat
        } else {
            0nat
        },
    decreases e.len(),
{
    broadcast use vstd::set::group_set_axioms;

    reveal_with_fuel(Seq::<_>::filter, 2);
    let dn = desired_names(d);
    let en = existing_names(e);
    let del = spec_deletes(d, e);
    if e.len() == 0 {
        assert(del =~= Seq::<SyncActionView>::empty());
        assert(en =~= Set::<Seq<char>>::empty());
    } else {
        let e0 = e.drop_last();
        let x = e.last();
        let names = e.map_values(|xv: ExistingSecretView| xv.name);
        let names0 = e0.map_values(|xv: ExistingSecretView| xv.name);
        assert(names.drop_last() =~= names0);
        lemma_delete_name_count(d, e0, n);
        let en0 = existing_names(e0);
        assert(!names0.contains(x.name)) by {
            if names0.contains(x.name) {
                let i = choose|i: int| 0 <= i < names0.len() && names0[i] == x.name;
                assert(names[i] == names[e.len() - 1]);
            }
        }
        assert(names =~= names0 + seq![x.name]);
        Seq::lemma_to_set_insert_commutes(names0, x.name);
        assert(en == en0.insert(x.name));
        let del0 = spec_deletes(d, e0);
        assert(e.drop_last() == e0);
        lemma_desired_names_contains(d, x.name);
        if desired_has_name(d, x.name) {
            assert(e.filter(delete_pred(d)) == e0.filter(delete_pred(d)));
            assert(del =~= del0);
        } else {
            assert(e.filter(delete_pred(d)) == e0.filter(delete_pred(d)).push(x));
            assert(del =~= del0.push(SyncActionView::Delete { name: x.name }));
            assert(del.drop_last() =~= del0);
            if x.name == n {
                lemma_existing_names_contains(e0, n);
                assert(!en0.contains(n));
            }
        }
    }
}

/// The partition law: when neither input repeats a name, a pass produces
/// exactly one create per desired-only name, one update per name in both
/// sets, one delete per existing-only name, and every name in either set
/// is keyed by exactly one action; a name in neither set by none.
pub proof fn lemma_reconcile_partition(d: Seq<SecretView>, e: Seq<ExistingSecretView>)
    requires
        d.map_values(|s: SecretView| s.name).no_duplicates(),
        e.map_values(|x: ExistingSecretView| x.name).no_duplicates(),
    ensures
        count_creates(spec_reconcile(d, e)) == desired_names(d).difference(
            existing_names(e),
        ).len(),
        count_updates(spec_reconcile(d, e)) == desired_names(d).intersect(existing_names(e)).len(),
        count_deletes(spec_reconcile(d, e)) == existing_names(e).difference(
            desired_names(d),
        ).len(),
        forall|n: Seq<char>|
            #[trigger] count_with_name(spec_reconcile(d, e), n) == if desired_names(d).contains(n)
                || existing_names(e).contains(n) {
                1nat
            } else {
                0nat
            },
{
    let u = spec_upserts(d, e);
    let del = spec_deletes(d, e);
    lemma_upsert_counts(d, e);
    lemma_delete_counts(d, e);
    Seq::filter_distributes_over_add(u, del, create_pred());
    Seq::filter_distributes_over_add(u, del, update_pred());
    Seq::filter_distributes_over_add(u, del, del_pred());
    assert forall|n: Seq<char>|
        #[trigger] count_with_name(spec_reconcile(d, e), n) == if desired_names(d).contains(n)
            || existing_names(e).contains(n) {
            1nat
        } else {
            0nat
        } by {
        lemma_upsert_name_count(d, e, n);
        lemma_delete_name_count(d, e, n);
        Seq::filter_distributes_over_add(u, del, name_pred(n));
    }
}

/// With nothing desired and nothing existing, a pass produces no actions.
pub proof fn lemma_reconcile_both_empty()
    ensures
        spec_reconcile(Seq::<SecretView>::empty(), Seq::<ExistingSecretView>::empty())
            == Seq::<SyncActionView>::empty(),
{
    reveal_with_fuel(Seq::<_>::filter, 1);
    assert(spec_reconcile(Seq::<SecretView>::empty(), Seq::<ExistingSecretView>::empty())
        =~= Seq::<SyncActionView>::empty());
}

/// With nothing existing, a pass creates every desired secret, in order.
pub proof fn lemma_reconcile_all_creates(d: Seq<SecretView>)
    ensures
        spec_reconcile(d, Seq::<ExistingSecretView>::empty()) == d.map_values(
            |s: SecretView| SyncActionView::Create { name: s.name, value: s.value },
        ),
{
    reveal_with_fuel(Seq::<_>::filter, 1);
    assert(spec_reconcile(d, Seq::<ExistingSecretView>::empty()) =~= d.map_values(
        |s: SecretView| SyncActionView::Create { name: s.name, value: s.value },
    ));
}

/// With nothing desired, a pass deletes every existing secret, in order.
pub proof fn lemma_reconcile_all_deletes(e: Seq<ExistingSecretView>)
    ensures
        spec_reconcile(Seq::<SecretView>::empty(), e) == e.map_values(
            |x: ExistingSecretView| SyncActionView::Delete { name: x.name },
        ),
{
    let d = Seq::<SecretView>::empty();
    lemma_filter_all_true(e, delete_pred(d));
    assert(spec_reconcile(d, e) =~= e.map_values(
        |x: ExistingSecretView| SyncActionView::Delete { name: x.name },
    ));
}

} // verus!
