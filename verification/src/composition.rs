//! How the results for a container relate to the results for its parts:
//! a dictionary without geometry, and a list, give the results of their
//! parts one after another, in order.
use vstd::prelude::*;
use crate::attributes::ReadFailure;
use crate::data_mgmr::{
    facilities_of, facilities_of_entries, facilities_of_items, join, lines_of, lines_of_entries,
    lines_of_items, points_of, points_of_entries, points_of_items, FacilityView, PointView, Role,
};
use crate::gis_structs::LineView;
use crate::pickle::{lookup, DictEntry, PickleValue};

verus! {

/// The outcomes of the parts gathered in order: the first failure if any,
/// else all the records, part after part.
pub open spec fn gathered(parts: Seq<Result<Seq<FacilityView>, ReadFailure>>) -> Result<
    Seq<FacilityView>,
    ReadFailure,
>
    decreases parts.len(),
{
    if parts.len() == 0 {
        Ok(Seq::empty())
    } else {
        match parts[0] {
            Err(e) => Err(e),
            Ok(x) => match gathered(parts.drop_first()) {
                Err(e) => Err(e),
                Ok(y) => Ok(x + y),
            },
        }
    }
}

proof fn lemma_gathered_push(
    parts: Seq<Result<Seq<FacilityView>, ReadFailure>>,
    last: Result<Seq<FacilityView>, ReadFailure>,
)
    ensures
        gathered(parts.push(last)) == join(gathered(parts), last),
    decreases parts.len(),
{
    if parts.len() == 0 {
        assert(parts.push(last).drop_first() =~= Seq::<Result<Seq<FacilityView>, ReadFailure>>::empty());
        assert(parts.push(last)[0] == last);
        assert(gathered(Seq::<Result<Seq<FacilityView>, ReadFailure>>::empty()) == Ok::<Seq<FacilityView>, ReadFailure>(Seq::empty()));
        assert(gathered(parts) == Ok::<Seq<FacilityView>, ReadFailure>(Seq::empty()));
        if let Ok(x) = last {
            assert(x + Seq::<FacilityView>::empty() =~= x);
            assert(Seq::<FacilityView>::empty() + x =~= x);
        }
    } else {
        assert(parts.push(last).drop_first() =~= parts.drop_first().push(last));
        assert(parts.push(last)[0] == parts[0]);
        lemma_gathered_push(parts.drop_first(), last);
        if let (Ok(x), Ok(y), Ok(z)) = (parts[0], gathered(parts.drop_first()), last) {
            assert(x + (y + z) =~= (x + y) + z);
        }
    }
}

proof fn lemma_points_entries(es: Seq<DictEntry>)
    ensures
        points_of_entries(es) == es.map_values(|e: DictEntry| points_of(e.value)).flatten(),
    decreases es.len(),
{
    let f = |e: DictEntry| points_of(e.value);
    if es.len() == 0 {
        assert(es.map_values(f) =~= Seq::empty());
    } else {
        lemma_points_entries(es.drop_last());
        assert(es.map_values(f) =~= es.drop_last().map_values(f).push(f(es.last())));
        es.drop_last().map_values(f).lemma_flatten_push(f(es.last()));
    }
}

proof fn lemma_points_items(xs: Seq<PickleValue>)
    ensures
        points_of_items(xs) == xs.map_values(|x: PickleValue| points_of(x)).flatten(),
    decreases xs.len(),
{
    let f = |x: PickleValue| points_of(x);
    if xs.len() == 0 {
        assert(xs.map_values(f) =~= Seq::empty());
    } else {
        lemma_points_items(xs.drop_last());
        assert(xs.map_values(f) =~= xs.drop_last().map_values(f).push(f(xs.last())));
        xs.drop_last().map_values(f).lemma_flatten_push(f(xs.last()));
    }
}

proof fn lemma_lines_entries(es: Seq<DictEntry>)
    ensures
        lines_of_entries(es) == es.map_values(|e: DictEntry| lines_of(e.value)).flatten(),
    decreases es.len(),
{
    let f = |e: DictEntry| lines_of(e.value);
    if es.len() == 0 {
        assert(es.map_values(f) =~= Seq::empty());
    } else {
        lemma_lines_entries(es.drop_last());
        assert(es.map_values(f) =~= es.drop_last().map_values(f).push(f(es.last())));
        es.drop_last().map_values(f).lemma_flatten_push(f(es.last()));
    }
}

proof fn lemma_lines_items(xs: Seq<PickleValue>)
    ensures
        lines_of_items(xs) == xs.map_values(|x: PickleValue| lines_of(x)).flatten(),
    decreases xs.len(),
{
    let f = |x: PickleValue| lines_of(x);
    if xs.len() == 0 {
        assert(xs.map_values(f) =~= Seq::empty());
    } else {
        lemma_lines_items(xs.drop_last());
        assert(xs.map_values(f) =~= xs.drop_last().map_values(f).push(f(xs.last())));
        xs.drop_last().map_values(f).lemma_flatten_push(f(xs.last()));
    }
}

proof fn lemma_facilities_entries(role: Role, es: Seq<DictEntry>)
    ensures
        facilities_of_entries(role, es) == gathered(
            es.map_values(|e: DictEntry| facilities_of(role, e.value)),
        ),
    decreases es.len(),
{
    let f = |e: DictEntry| facilities_of(role, e.value);
    if es.len() == 0 {
        assert(es.map_values(f) =~= Seq::empty());
    } else {
        lemma_facilities_entries(role, es.drop_last());
        assert(es.map_values(f) =~= es.drop_last().map_values(f).push(f(es.last())));
        lemma_gathered_push(es.drop_last().map_values(f), f(es.last()));
    }
}

proof fn lemma_facilities_items(role: Role, xs: Seq<PickleValue>)
    ensures
        facilities_of_items(role, xs) == gathered(
            xs.map_values(|x: PickleValue| facilities_of(role, x)),
        ),
    decreases xs.len(),
{
    let f = |x: PickleValue| facilities_of(role, x);
    if xs.len() == 0 {
        assert(xs.map_values(f) =~= Seq::empty());
    } else {
        lemma_facilities_items(role, xs.drop_last());
        assert(xs.map_values(f) =~= xs.drop_last().map_values(f).push(f(xs.last())));
        lemma_gathered_push(xs.drop_last().map_values(f), f(xs.last()));
    }
}

/// The points of a dictionary without a `geometry` entry are the points of
/// its values, one value after another, in entry order.
pub proof fn law_points_of_dict_concatenate(entries: Vec<DictEntry>)
    requires
        lookup(entries@, "geometry"@) is None,
    ensures
        points_of(PickleValue::Dict(entries)) == entries@.map_values(
            |e: DictEntry| points_of(e.value),
        ).flatten(),
{
    lemma_points_entries(entries@);
}

/// The points of a list are the points of its items, one after another.
pub proof fn law_points_of_list_concatenate(items: Vec<PickleValue>)
    ensures
        points_of(PickleValue::List(items)) == items@.map_values(|x: PickleValue| points_of(x)).flatten(),
{
    lemma_points_items(items@);
}

/// The lines of a dictionary without a `geometry` entry are the lines of
/// its values, one value after another, in entry order; so there are at
/// least as many as any one value gives.
pub proof fn law_lines_of_dict_concatenate(entries: Vec<DictEntry>)
    requires
        lookup(entries@, "geometry"@) is None,
    ensures
        lines_of(PickleValue::Dict(entries)) == entries@.map_values(
            |e: DictEntry| lines_of(e.value),
        ).flatten(),
        forall|i: int|
            0 <= i < entries@.len() ==> lines_of(#[trigger] entries@[i].value).len() <= lines_of(
                PickleValue::Dict(entries),
            ).len(),
{
    let f = |e: DictEntry| lines_of(e.value);
    lemma_lines_entries(entries@);
    assert forall|i: int| 0 <= i < entries@.len() implies lines_of(
        #[trigger] entries@[i].value,
    ).len() <= lines_of(PickleValue::Dict(entries)).len() by {
        assert(entries@.map_values(f)[i] == lines_of(entries@[i].value));
        entries@.map_values(f).lemma_flatten_length_ge_single_element_length(i);
        entries@.map_values(f).lemma_flatten_and_flatten_alt_are_equivalent();
    }
}

/// The lines of a list are the lines of its items, one after another.
pub proof fn law_lines_of_list_concatenate(items: Vec<PickleValue>)
    ensures
        lines_of(PickleValue::List(items)) == items@.map_values(|x: PickleValue| lines_of(x)).flatten(),
{
    lemma_lines_items(items@);
}

/// The facilities of a dictionary without a `geometry` entry are gathered
/// from its values in entry order: the first failure among them, else
/// their records one value after another.
pub proof fn law_facilities_of_dict_gather(role: Role, entries: Vec<DictEntry>)
    requires
        lookup(entries@, "geometry"@) is None,
    ensures
        facilities_of(role, PickleValue::Dict(entries)) == gathered(
            entries@.map_values(|e: DictEntry| facilities_of(role, e.value)),
        ),
{
    lemma_facilities_entries(role, entries@);
}

/// The facilities of a list are gathered from its items in order.
pub proof fn law_facilities_of_list_gather(role: Role, items: Vec<PickleValue>)
    ensures
        facilities_of(role, PickleValue::List(items)) == gathered(
            items@.map_values(|x: PickleValue| facilities_of(role, x)),
        ),
{
    lemma_facilities_items(role, items@);
}

}
