use vstd::prelude::*;
use crate::error::RoanError;
use crate::span::TextSpan;
use crate::text::string_views;

verus! {

/// The first position, from `from` on, of an export with the given name.
pub open spec fn first_export(names: Seq<Seq<char>>, name: Seq<char>, from: int) -> Option<int>
    decreases names.len() - from,
{
    if from < 0 || from >= names.len() {
        None
    } else if names[from] == name {
        Some(from)
    } else {
        first_export(names, name, from + 1)
    }
}

/// What a `use` statement imports, from item `i` on: for each item in order the position
/// of the first export of its name, up to the first item that no export has; that item
/// (its name and span) is the error.
pub open spec fn import_plan_from(
    names: Seq<Seq<char>>,
    items: Seq<(Seq<char>, TextSpan)>,
    i: int,
) -> (Seq<int>, Option<(Seq<char>, TextSpan)>)
    decreases items.len() - i,
{
    if i < 0 || i >= items.len() {
        (seq![], None)
    } else {
        match first_export(names, items[i].0, 0) {
            None => (seq![], Some(items[i])),
            Some(k) => {
                let (rest, e) = import_plan_from(names, items, i + 1);
                (seq![k] + rest, e)
            },
        }
    }
}

/// The export search finds an export of the name exactly when there is one.
proof fn lemma_first_export(names: Seq<Seq<char>>, name: Seq<char>, from: int)
    requires
        0 <= from,
    ensures
        match first_export(names, name, from) {
            Some(k) => from <= k < names.len() && names[k] == name,
            None => forall|k: int| from <= k < names.len() ==> names[k] != name,
        },
    decreases names.len() - from,
{
    if from < names.len() {
        lemma_first_export(names, name, from + 1);
    }
}

/// What a `use` statement imports: one export per item, in order, each an export of the
/// item's name, up to the first item that no export has, which is the error; when every
/// item is exported, every item is imported and there is no error.
pub proof fn lemma_import_plan(names: Seq<Seq<char>>, items: Seq<(Seq<char>, TextSpan)>, i: int)
    requires
        0 <= i <= items.len(),
    ensures
        ({
            let (plan, e) = import_plan_from(names, items, i);
            &&& i + plan.len() <= items.len()
            &&& forall|j: int| 0 <= j < plan.len() ==> 0 <= #[trigger] plan[j] < names.len() && names[plan[j]] == items[i + j].0
            &&& match e {
                Some(x) => i + plan.len() < items.len() && x == items[i + plan.len()]
                    && forall|k: int| 0 <= k < names.len() ==> names[k] != x.0,
                None => i + plan.len() == items.len(),
            }
        }),
        (forall|j: int| i <= j < items.len() ==> exists|k: int| 0 <= k < names.len() && names[k] == (#[trigger] items[j]).0)
            ==> import_plan_from(names, items, i).1 is None,
    decreases items.len() - i,
{
    if i < items.len() {
        lemma_first_export(names, items[i].0, 0);
        lemma_import_plan(names, items, i + 1);
        match first_export(names, items[i].0, 0) {
            None => {
                if forall|j: int| i <= j < items.len() ==> exists|k: int| 0 <= k < names.len() && names[k] == (#[trigger] items[j]).0 {
                    assert(exists|k: int| 0 <= k < names.len() && names[k] == items[i].0);
                }
            },
            Some(k) => {
                let (rest, e) = import_plan_from(names, items, i + 1);
                let plan = seq![k] + rest;
                assert forall|j: int| 0 <= j < plan.len() implies 0 <= #[trigger] plan[j] < names.len() && names[plan[j]] == items[i + j].0 by {
                    if j > 0 {
                        assert(plan[j] == rest[j - 1]);
                    }
                }
            },
        }
    }
}

/// The imported items taken by their names and spans.
pub open spec fn item_views(items: Seq<(String, TextSpan)>) -> Seq<(Seq<char>, TextSpan)> {
    items.map_values(|it: (String, TextSpan)| (it.0@, it.1))
}

/// An import error taken by the name and span it reports.
pub open spec fn import_error_view(e: Option<RoanError>) -> Option<(Seq<char>, TextSpan)> {
    match e {
        Some(RoanError::ImportError(n, s)) => Some((n@, s)),
        _ => None,
    }
}

/// The position of the first export of the given name.
fn find_export(names: &Vec<String>, name: &String) -> (k: Option<usize>)
    ensures
        match k {
            Some(k) => first_export(string_views(names@), name@, 0) == Some(k as int),
            None => first_export(string_views(names@), name@, 0) is None,
        },
{
    let ghost sv = string_views(names@);
    let mut j: usize = 0;
    while j < names.len()
        invariant
            j <= names@.len(),
            sv == string_views(names@),
            first_export(sv, name@, 0) == first_export(sv, name@, j as int),
        decreases names@.len() - j,
    {
        if names[j] == *name {
            return Some(j);
        }
        j = j + 1;
    }
    None
}

/// Decides what a `use` statement imports from a module whose exports have the given
/// names: the positions of the exports to bring in, one per item in order, and, when an
/// item is not exported, the import error for the first such item (the items before it are
/// still imported).
pub fn import_plan(export_names: &Vec<String>, items: &Vec<(String, TextSpan)>) -> (r: (Vec<usize>, Option<RoanError>))
    ensures
        import_plan_from(string_views(export_names@), item_views(items@), 0)
            == (r.0@.map_values(|k: usize| k as int), import_error_view(r.1)),
        r.1 matches Some(e) ==> e is ImportError,
{
    let ghost names = string_views(export_names@);
    let ghost iv = item_views(items@);
    let mut plan: Vec<usize> = Vec::new();
    let mut i: usize = 0;
    while i < items.len()
        invariant
            i <= items@.len(),
            names == string_views(export_names@),
            iv == item_views(items@),
            import_plan_from(names, iv, 0) == (
                plan@.map_values(|k: usize| k as int) + import_plan_from(names, iv, i as int).0,
                import_plan_from(names, iv, i as int).1,
            ),
        decreases items@.len() - i,
    {
        assert(iv[i as int] == (items@[i as int].0@, items@[i as int].1));
        match find_export(export_names, &items[i].0) {
            None => {
                let e = RoanError::ImportError(items[i].0.clone(), items[i].1.duplicate());
                assert(plan@.map_values(|k: usize| k as int) + Seq::<int>::empty()
                    =~= plan@.map_values(|k: usize| k as int));
                return (plan, Some(e));
            },
            Some(k) => {
                let ghost before = plan@;
                plan.push(k);
                assert(plan@.map_values(|k: usize| k as int) =~= before.map_values(|k: usize| k as int).push(k as int));
                assert(before.map_values(|k: usize| k as int) + (seq![k as int] + import_plan_from(names, iv, i + 1).0)
                    =~= plan@.map_values(|k: usize| k as int) + import_plan_from(names, iv, i + 1).0);
            },
        }
        i = i + 1;
    }
    assert(plan@.map_values(|k: usize| k as int) + Seq::<int>::empty() =~= plan@.map_values(|k: usize| k as int));
    (plan, None)
}

} // verus!
