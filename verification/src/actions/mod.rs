//! Actions: stateless logic that reads traits and returns proposed updates.
//!
//! An action never mutates. It returns `TraitUpdate`s naming the object each new
//! trait value belongs to, and the host applies them in a separate step.

pub mod context;
pub mod result;

use vstd::prelude::*;
use vstd::multiset::Multiset;
use crate::error::OatsError;
use crate::objects::{lemma_missing_names_exact, missing_names, missing_traits_text, name_views, Object, ObjectView};
use crate::text::{join, join_texts, lemma_sorted_texts_is, sort_texts, sorted_texts, texts_sorted, views};
use context::ActionContext;

verus! {

/// The roles and objects of a context, in the order the roles were added.
pub open spec fn context_entries(context: &ActionContext) -> Seq<(Seq<char>, ObjectView)> {
    Seq::new(
        context.objects.key_list().len(),
        |i: int| (context.objects.key_list()[i], context.objects.value_list()[i]@),
    )
}

/// The line that reports the object playing `role` as lacking required traits.
pub open spec fn failure_line(role: Seq<char>, object: ObjectView, required: Seq<Seq<char>>) -> Seq<char> {
    "'"@ + role + "': "@ + "Validation error: "@ + missing_traits_text(
        object.name,
        missing_names(object.traits, required),
    )
}

/// One line for each entry whose object lacks some required trait, in entry order.
pub open spec fn failure_lines(entries: Seq<(Seq<char>, ObjectView)>, required: Seq<Seq<char>>) -> Seq<Seq<char>>
    decreases entries.len(),
{
    if entries.len() == 0 {
        Seq::empty()
    } else {
        let rest = failure_lines(entries.drop_last(), required);
        let (role, object) = entries.last();
        if missing_names(object.traits, required).len() > 0 {
            rest.push(failure_line(role, object, required))
        } else {
            rest
        }
    }
}

/// The message for an action that requires traits but was given no objects.
pub open spec fn empty_context_text(action_name: Seq<char>, required: Seq<Seq<char>>) -> Seq<char> {
    "Action '"@ + action_name + "' requires traits ["@ + join(required, ", "@)
        + "] but its context holds no objects"@
}

/// The message for an action whose context has objects that lack required traits.
pub open spec fn unmet_text(action_name: Seq<char>, lines: Seq<Seq<char>>) -> Seq<char> {
    "Action '"@ + action_name + "' preconditions not met - "@ + join(sorted_texts(lines), "; "@)
}

/// What checking `context` against an action named `action_name` that requires the
/// traits `required` gives: `Ok` when nothing is required; a refusal naming the action
/// and the required traits when the context holds no objects; otherwise `Ok` when no
/// object lacks a required trait, and else a refusal listing, sorted, one line per
/// object that falls short.
pub open spec fn context_check(
    action_name: Seq<char>,
    required: Seq<Seq<char>>,
    context: &ActionContext,
    r: Result<(), OatsError>,
) -> bool {
    &&& required.len() == 0 ==> r is Ok
    &&& required.len() > 0 && context.objects@.len() == 0 ==> (r matches Err(
        OatsError::ValidationError { message },
    ) && message@ == empty_context_text(action_name, required))
    &&& required.len() > 0 && context.objects@.len() > 0 ==> {
        let lines = failure_lines(context_entries(context), required);
        &&& lines.len() == 0 ==> r is Ok
        &&& lines.len() > 0 ==> (r matches Err(OatsError::ValidationError { message })
            && message@ == unmet_text(action_name, lines))
    }
}

/// Checks that a context satisfies an action's declared preconditions: every object in
/// the context carries every trait named in `required`, and the context holds at least
/// one object whenever some trait is required.
///
/// A refusal is a validation error. With no objects it names the action and the
/// required traits; otherwise it names the action and lists, sorted, one line per
/// object that falls short, giving its role and the traits it lacks.
pub fn check_context(action_name: &str, required: &Vec<String>, context: &ActionContext) -> (r: Result<(), OatsError>)
    ensures
        context_check(action_name@, views(required@), context, r),
{
    if required.len() == 0 {
        return Ok(());
    }
    let count = context.objects.len();
    if count == 0 {
        let mut message = "Action '".to_owned();
        message.append(action_name);
        message.append("' requires traits [");
        let list = join_texts(required, ", ");
        message.append(list.as_str());
        message.append("] but its context holds no objects");
        return Err(OatsError::ValidationError { message });
    }
    let ghost req = views(required@);
    let mut names: Vec<&str> = Vec::new();
    let mut k: usize = 0;
    while k < required.len()
        invariant
            k <= required.len(),
            req == views(required@),
            name_views(names@) == req.take(k as int),
        decreases required.len() - k,
    {
        let ghost before = name_views(names@);
        names.push(required[k].as_str());
        proof {
            assert(name_views(names@) =~= before.push(required@[k as int]@));
            assert(req.take(k + 1) =~= req.take(k as int).push(required@[k as int]@));
        }
        k = k + 1;
    }
    proof {
        assert(req.take(required.len() as int) =~= req);
    }
    let ghost entries = context_entries(context);
    let mut failures: Vec<String> = Vec::new();
    let mut i: usize = 0;
    while i < count
        invariant
            count == context.objects.key_list().len(),
            count == context.objects.value_list().len(),
            entries == context_entries(context),
            name_views(names@) == req,
            i <= count,
            views(failures@) == failure_lines(entries.take(i as int), req),
        decreases count - i,
    {
        let role = context.objects.key_at(i);
        let object: &Object = context.objects.value_at(i);
        proof {
            assert(entries.take(i + 1).drop_last() =~= entries.take(i as int));
            assert(entries.take(i + 1).last() == (role@, object@));
        }
        match object.validate_required_traits(names.as_slice()) {
            Ok(()) => {},
            Err(error) => {
                let mut line = "'".to_owned();
                line.append(role.as_str());
                line.append("': ");
                let text = error.describe();
                line.append(text.as_str());
                let ghost before = views(failures@);
                failures.push(line);
                proof {
                    assert(views(failures@) =~= before.push(line@));
                    assert(line@ =~= failure_line(role@, object@, req));
                }
            },
        }
        i = i + 1;
    }
    proof {
        assert(entries.take(count as int) =~= entries);
    }
    if failures.len() == 0 {
        return Ok(());
    }
    let ghost lines = views(failures@);
    let sorted = sort_texts(failures);
    proof {
        lemma_sorted_texts_is(lines, views(sorted@));
    }
    let mut message = "Action '".to_owned();
    message.append(action_name);
    message.append("' preconditions not met - ");
    let list = join_texts(&sorted, "; ");
    message.append(list.as_str());
    Err(OatsError::ValidationError { message })
}

/// A context passes exactly when no object in it lacks a required trait: there is no
/// failure line just when every object carries every required trait.
pub proof fn lemma_passes_iff_every_object_carries_all(entries: Seq<(Seq<char>, ObjectView)>, required: Seq<Seq<char>>)
    ensures
        (failure_lines(entries, required).len() == 0) <==> (forall|i: int|
            0 <= i < entries.len() ==> #[trigger] missing_names(entries[i].1.traits, required).len() == 0),
    decreases entries.len(),
{
    if entries.len() > 0 {
        let init = entries.drop_last();
        lemma_passes_iff_every_object_carries_all(init, required);
        let last = entries.len() - 1;
        assert(entries.last() == entries[last]);
        if failure_lines(entries, required).len() == 0 {
            assert forall|i: int| 0 <= i < entries.len() implies #[trigger] missing_names(entries[i].1.traits, required).len() == 0 by {
                if i < last {
                    assert(init[i] == entries[i]);
                }
            }
        }
        if forall|i: int| 0 <= i < entries.len() ==> #[trigger] missing_names(entries[i].1.traits, required).len() == 0 {
            assert forall|i: int| 0 <= i < init.len() implies #[trigger] missing_names(init[i].1.traits, required).len() == 0 by {
                assert(init[i] == entries[i]);
            }
            assert(missing_names(entries[last].1.traits, required).len() == 0);
        }
    }
}

/// Every object that lacks a required trait gets a line of its own.
pub proof fn lemma_one_line_per_failing_object(entries: Seq<(Seq<char>, ObjectView)>, required: Seq<Seq<char>>)
    ensures
        failure_lines(entries, required).len() <= entries.len(),
        forall|i: int| 0 <= i < entries.len() && #[trigger] missing_names(entries[i].1.traits, required).len() > 0
            ==> failure_lines(entries, required).contains(failure_line(entries[i].0, entries[i].1, required)),
    decreases entries.len(),
{
    if entries.len() > 0 {
        let init = entries.drop_last();
        lemma_one_line_per_failing_object(init, required);
        let last = entries.len() - 1;
        assert(entries.last() == entries[last]);
        assert forall|i: int| 0 <= i < entries.len() && #[trigger] missing_names(entries[i].1.traits, required).len() > 0
            implies failure_lines(entries, required).contains(failure_line(entries[i].0, entries[i].1, required)) by {
            let lines = failure_lines(entries, required);
            let before = failure_lines(init, required);
            if i < last {
                assert(init[i] == entries[i]);
                let j = choose|j: int| 0 <= j < before.len() && before[j] == failure_line(init[i].0, init[i].1, required);
                assert(lines[j] == before[j]);
            } else {
                assert(lines[lines.len() - 1] == failure_line(entries[i].0, entries[i].1, required));
            }
        }
    }
}

/// The failure line an entry contributes, as a multiset: one line if its object lacks
/// a required trait, none otherwise.
pub open spec fn entry_lines(entry: (Seq<char>, ObjectView), required: Seq<Seq<char>>) -> Multiset<Seq<char>> {
    if missing_names(entry.1.traits, required).len() > 0 {
        Multiset::singleton(failure_line(entry.0, entry.1, required))
    } else {
        Multiset::empty()
    }
}

proof fn lemma_failure_lines_step(entries: Seq<(Seq<char>, ObjectView)>, required: Seq<Seq<char>>)
    requires
        entries.len() > 0,
    ensures
        failure_lines(entries, required).to_multiset() == failure_lines(entries.drop_last(), required).to_multiset().add(
            entry_lines(entries.last(), required),
        ),
{
    broadcast use vstd::seq_lib::group_to_multiset_ensures, vstd::multiset::group_multiset_axioms;
    let before = failure_lines(entries.drop_last(), required);
    before.to_multiset_ensures();
    let x = entries.last();
    if missing_names(x.1.traits, required).len() > 0 {
        assert(before.push(failure_line(x.0, x.1, required)).to_multiset() =~= before.to_multiset().insert(
            failure_line(x.0, x.1, required),
        ));
        assert(before.to_multiset().insert(failure_line(x.0, x.1, required)) =~= before.to_multiset().add(
            entry_lines(x, required),
        ));
    } else {
        assert(before.to_multiset() =~= before.to_multiset().add(entry_lines(x, required)));
    }
}

proof fn lemma_failure_lines_remove(entries: Seq<(Seq<char>, ObjectView)>, required: Seq<Seq<char>>, j: int)
    requires
        0 <= j < entries.len(),
    ensures
        failure_lines(entries, required).to_multiset() == failure_lines(entries.remove(j), required).to_multiset().add(
            entry_lines(entries[j], required),
        ),
    decreases entries.len(),
{
    broadcast use vstd::multiset::group_multiset_axioms;
    lemma_failure_lines_step(entries, required);
    let last = entries.len() - 1;
    if j == last {
        assert(entries.remove(j) =~= entries.drop_last());
    } else {
        let d = entries.drop_last();
        let r = entries.remove(j);
        assert(d.remove(j) =~= r.drop_last());
        assert(r.last() == entries.last());
        assert(d[j] == entries[j]);
        lemma_failure_lines_remove(d, required, j);
        lemma_failure_lines_step(r, required);
        let a = failure_lines(d.remove(j), required).to_multiset();
        let ej = entry_lines(entries[j], required);
        let el = entry_lines(entries.last(), required);
        assert(a.add(ej).add(el) =~= a.add(el).add(ej));
    }
}

proof fn lemma_failure_lines_permutation(
    e1: Seq<(Seq<char>, ObjectView)>,
    e2: Seq<(Seq<char>, ObjectView)>,
    required: Seq<Seq<char>>,
)
    requires
        e1.no_duplicates(),
        e2.no_duplicates(),
        forall|x: (Seq<char>, ObjectView)| e1.contains(x) <==> e2.contains(x),
    ensures
        failure_lines(e1, required).to_multiset() == failure_lines(e2, required).to_multiset(),
    decreases e1.len(),
{
    broadcast use vstd::seq_lib::group_to_multiset_ensures;
    if e1.len() == 0 {
        if e2.len() > 0 {
            assert(e2.contains(e2[0]));
        }
        assert(e2 =~= e1);
    } else {
        let x = e1.last();
        assert(e1.contains(x));
        let j = choose|j: int| 0 <= j < e2.len() && e2[j] == x;
        let d1 = e1.drop_last();
        let d2 = e2.remove(j);
        assert(d1.no_duplicates()) by {
            assert forall|a: int, b: int| 0 <= a < d1.len() && 0 <= b < d1.len() && a != b implies d1[a] != d1[b] by {
                assert(d1[a] == e1[a] && d1[b] == e1[b]);
            }
        }
        assert(d2.no_duplicates()) by {
            assert forall|a: int, b: int| 0 <= a < d2.len() && 0 <= b < d2.len() && a != b implies d2[a] != d2[b] by {
                let a0 = if a < j { a } else { a + 1 };
                let b0 = if b < j { b } else { b + 1 };
                assert(d2[a] == e2[a0] && d2[b] == e2[b0]);
            }
        }
        assert forall|y: (Seq<char>, ObjectView)| d1.contains(y) <==> d2.contains(y) by {
            if d1.contains(y) {
                let a = choose|a: int| 0 <= a < d1.len() && d1[a] == y;
                assert(e1[a] == y);
                assert(e1.contains(y));
                let b = choose|b: int| 0 <= b < e2.len() && e2[b] == y;
                assert(y != x);
                assert(b != j);
                let b2 = if b < j { b } else { b - 1 };
                assert(d2[b2] == y);
            }
            if d2.contains(y) {
                let b = choose|b: int| 0 <= b < d2.len() && d2[b] == y;
                let b0 = if b < j { b } else { b + 1 };
                assert(e2[b0] == y);
                assert(b0 != j);
                assert(e2.contains(y));
                let a = choose|a: int| 0 <= a < e1.len() && e1[a] == y;
                assert(a != e1.len() - 1);
                assert(d1[a] == y);
            }
        }
        lemma_failure_lines_permutation(d1, d2, required);
        lemma_failure_lines_step(e1, required);
        lemma_failure_lines_remove(e2, required, j);
    }
}

/// The check does not depend on the order in which objects were added: two contexts
/// that hold the same objects under the same roles get the same answer.
pub proof fn lemma_check_ignores_insertion_order(
    action_name: Seq<char>,
    required: Seq<Seq<char>>,
    c1: &ActionContext,
    c2: &ActionContext,
    r: Result<(), OatsError>,
)
    requires
        c1.objects.well_formed(),
        c2.objects.well_formed(),
        c1.objects@ == c2.objects@,
    ensures
        context_check(action_name, required, c1, r) == context_check(action_name, required, c2, r),
{
    broadcast use vstd::seq_lib::group_to_multiset_ensures;
    c1.objects.lemma_shape();
    c2.objects.lemma_shape();
    let e1 = context_entries(c1);
    let e2 = context_entries(c2);
    let k1 = c1.objects.key_list();
    let k2 = c2.objects.key_list();
    let m = c1.objects@;
    assert forall|x: (Seq<char>, ObjectView)| e1.contains(x) <==> (m.contains_key(x.0) && x.1 == m[x.0]@) by {
        if e1.contains(x) {
            let i = choose|i: int| 0 <= i < e1.len() && e1[i] == x;
            assert(k1[i] == x.0);
        }
        if m.contains_key(x.0) && x.1 == m[x.0]@ {
            assert(k1.contains(x.0));
            let i = choose|i: int| 0 <= i < k1.len() && k1[i] == x.0;
            assert(e1[i] == x);
        }
    }
    assert forall|x: (Seq<char>, ObjectView)| e2.contains(x) <==> (m.contains_key(x.0) && x.1 == m[x.0]@) by {
        if e2.contains(x) {
            let i = choose|i: int| 0 <= i < e2.len() && e2[i] == x;
            assert(k2[i] == x.0);
        }
        if m.contains_key(x.0) && x.1 == m[x.0]@ {
            assert(k2.contains(x.0));
            let i = choose|i: int| 0 <= i < k2.len() && k2[i] == x.0;
            assert(e2[i] == x);
        }
    }
    assert(e1.no_duplicates()) by {
        assert forall|a: int, b: int| 0 <= a < e1.len() && 0 <= b < e1.len() && a != b implies e1[a] != e1[b] by {
            assert(k1[a] != k1[b]);
        }
    }
    assert(e2.no_duplicates()) by {
        assert forall|a: int, b: int| 0 <= a < e2.len() && 0 <= b < e2.len() && a != b implies e2[a] != e2[b] by {
            assert(k2[a] != k2[b]);
        }
    }
    lemma_failure_lines_permutation(e1, e2, required);
    let l1 = failure_lines(e1, required);
    let l2 = failure_lines(e2, required);
    l1.to_multiset_ensures();
    l2.to_multiset_ensures();
    assert(l1.len() == l2.len());
    let p1 = |t: Seq<Seq<char>>| texts_sorted(t) && t.to_multiset() == l1.to_multiset();
    let p2 = |t: Seq<Seq<char>>| texts_sorted(t) && t.to_multiset() == l2.to_multiset();
    assert(p1 =~= p2);
    assert(sorted_texts(l1) == sorted_texts(l2));
}

/// A context the check accepts while some trait is required holds at least one object,
/// and every object in it carries every required trait; a context holding an object
/// that lacks one is refused.
pub proof fn lemma_accepted_context_carries_every_required_trait(
    action_name: Seq<char>,
    required: Seq<Seq<char>>,
    context: &ActionContext,
    r: Result<(), OatsError>,
)
    requires
        context_check(action_name, required, context, r),
        required.len() > 0,
        context.objects.well_formed(),
    ensures
        r is Ok ==> context.objects@.len() > 0,
        r is Ok ==> forall|i: int, j: int|
            0 <= i < context_entries(context).len() && 0 <= j < required.len() ==> #[trigger] context_entries(
                context,
            )[i].1.traits.contains_key(#[trigger] required[j]),
        (exists|i: int, j: int|
            0 <= i < context_entries(context).len() && 0 <= j < required.len()
                && !context_entries(context)[i].1.traits.contains_key(required[j])) ==> r is Err,
{
    context.objects.lemma_shape();
    let entries = context_entries(context);
    lemma_passes_iff_every_object_carries_all(entries, required);
    assert forall|i: int| 0 <= i < entries.len() implies (#[trigger] missing_names(entries[i].1.traits, required).len()
        == 0 <==> forall|j: int| 0 <= j < required.len() ==> entries[i].1.traits.contains_key(#[trigger] required[j])) by {
        lemma_missing_names_exact(entries[i].1.traits, required);
    }
    if exists|i: int, j: int|
        0 <= i < entries.len() && 0 <= j < required.len() && !entries[i].1.traits.contains_key(required[j]) {
        let (i, j) = choose|i: int, j: int|
            0 <= i < entries.len() && 0 <= j < required.len() && !entries[i].1.traits.contains_key(required[j]);
        assert(missing_names(entries[i].1.traits, required).len() != 0);
    }
}

/// An action represents stateless logic that reads traits and proposes updates.
///
/// The implementor names the action and declares the traits it needs; executing it is
/// the host's concern.
pub trait Action: Send + Sync {
    /// Get the name of this action
    fn name(&self) -> &str;

    /// Get the description of this action
    fn description(&self) -> &str;

    /// Get the required trait names for this action; by default, none
    fn required_traits(&self) -> (r: Vec<String>)
        default_ensures
            r@.len() == 0,
    {
        Vec::new()
    }

    /// Get the optional trait names for this action; by default, none
    fn optional_traits(&self) -> (r: Vec<String>)
        default_ensures
            r@.len() == 0,
    {
        Vec::new()
    }

    /// Check that a context satisfies this action's declared preconditions: by
    /// default, `check_context` with this action's name and required traits. Actions
    /// whose context holds objects in different roles with different requirements
    /// should override this.
    fn validate_context(&self, context: &ActionContext) -> (r: Result<(), OatsError>)
        default_ensures
            exists|name: &str, required: Vec<String>|
                call_ensures(Self::name, (self,), name) && call_ensures(Self::required_traits, (self,), required)
                    && context_check(name@, views(required@), context, r),
    {
        let required = self.required_traits();
        let name = self.name();
        check_context(name, &required, context)
    }
}

} // verus!
