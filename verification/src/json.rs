use vstd::prelude::*;

verus! {

/// A parsed JSON document, reduced to what the schedule format reads: the
/// tree shape, object entries, text, and numbers with an exact u64 value.
/// Everything else (null, booleans, other numbers) is `Other`, which the
/// format rejects wherever it looks.
pub enum JsonValue {
    Array(Vec<JsonValue>),
    Object(Vec<(String, JsonValue)>),
    Text(String),
    UInt(u64),
    Other,
}

/// Mathematical image of a `JsonValue`.
#[verifier::ext_equal]
pub ghost enum JsonView {
    Array(Seq<JsonView>),
    Object(Seq<(Seq<char>, JsonView)>),
    Text(Seq<char>),
    UInt(u64),
    Other,
}

/// The image of one tree node.
pub open spec fn json_view(v: JsonValue) -> JsonView
    decreases v,
{
    match v {
        JsonValue::Array(a) => JsonView::Array(views_of(a@)),
        JsonValue::Object(m) => JsonView::Object(entries_view(m@)),
        JsonValue::Text(s) => JsonView::Text(s@),
        JsonValue::UInt(u) => JsonView::UInt(u),
        JsonValue::Other => JsonView::Other,
    }
}

/// The images of a sequence of tree nodes, in order.
pub open spec fn views_of(s: Seq<JsonValue>) -> Seq<JsonView>
    decreases s,
{
    if s.len() == 0 {
        Seq::empty()
    } else {
        views_of(s.drop_last()).push(json_view(s.last()))
    }
}

/// The images of a sequence of object entries, in order.
pub open spec fn entries_view(s: Seq<(String, JsonValue)>) -> Seq<(Seq<char>, JsonView)>
    decreases s,
{
    if s.len() == 0 {
        Seq::empty()
    } else {
        entries_view(s.drop_last()).push((s.last().0@, json_view(s.last().1)))
    }
}

impl View for JsonValue {
    type V = JsonView;

    open spec fn view(&self) -> JsonView {
        json_view(*self)
    }
}

/// `views_of` is the element-wise image.
pub(crate) proof fn lemma_views_of(s: Seq<JsonValue>)
    ensures
        views_of(s).len() == s.len(),
        forall|i: int| 0 <= i < s.len() ==> views_of(s)[i] == json_view(s[i]),
    decreases s.len(),
{
    if s.len() > 0 {
        lemma_views_of(s.drop_last());
    }
}

/// `entries_view` is the entry-wise image.
proof fn lemma_entries_view(s: Seq<(String, JsonValue)>)
    ensures
        entries_view(s).len() == s.len(),
        forall|i: int|
            0 <= i < s.len() ==> entries_view(s)[i] == (s[i].0@, json_view(s[i].1)),
    decreases s.len(),
{
    if s.len() > 0 {
        lemma_entries_view(s.drop_last());
    }
}

/// The first entry of an object carrying `key`, if any. Entries come from a
/// parse, whose object keys are unique, so the first match is the only one.
pub open spec fn field_of(fields: Seq<(Seq<char>, JsonView)>, key: Seq<char>) -> Option<JsonView>
    decreases fields.len(),
{
    if fields.len() == 0 {
        None
    } else if fields[0].0 == key {
        Some(fields[0].1)
    } else {
        field_of(fields.drop_first(), key)
    }
}

/// Exact lookup of `key` among an object's entries.
pub(crate) fn field_of_exec<'a>(fields: &'a Vec<(String, JsonValue)>, key: &String) -> (r: Option<
    &'a JsonValue,
>)
    ensures
        match r {
            Some(v) => field_of(entries_view(fields@), key@) == Some(v@),
            None => field_of(entries_view(fields@), key@) is None,
        },
{
    proof {
        lemma_entries_view(fields@);
        assert(entries_view(fields@).skip(0) =~= entries_view(fields@));
    }
    let ghost ev = entries_view(fields@);
    let mut i: usize = 0;
    while i < fields.len()
        invariant
            i <= fields.len(),
            ev == entries_view(fields@),
            ev.len() == fields@.len(),
            forall|j: int| 0 <= j < fields@.len() ==> ev[j] == (fields@[j].0@, json_view(fields@[j].1)),
            field_of(ev, key@) == field_of(ev.skip(i as int), key@),
        decreases fields.len() - i,
    {
        proof {
            assert(ev.skip(i as int)[0] == ev[i as int]);
        }
        if fields[i].0 == *key {
            return Some(&fields[i].1);
        }
        proof {
            assert(ev.skip(i as int).drop_first() =~= ev.skip(i as int + 1));
        }
        i += 1;
    }
    proof {
        assert(ev.skip(fields@.len() as int) =~= Seq::<(Seq<char>, JsonView)>::empty());
    }
    None
}

} // verus!
