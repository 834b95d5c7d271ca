//! JSON values.
use vstd::prelude::*;
use vstd::string::StringExecFns;
use crate::error::{MplInscriptionError, ProgramError, custom};

verus! {

/// A JSON value. A number is kept as the text that spells it.
#[derive(Debug)]
pub enum JsonValue {
    Null,
    Bool(bool),
    Number(String),
    String(String),
    Array(Vec<JsonValue>),
    Object(Vec<Member>),
}

/// A member of a JSON object.
#[derive(Debug)]
pub struct Member {
    pub key: String,
    pub value: JsonValue,
}

/// A JSON value as a mathematical value.
pub enum JsonView {
    Null,
    Bool(bool),
    Number(Seq<char>),
    String(Seq<char>),
    Array(Seq<JsonView>),
    Object(Seq<(Seq<char>, JsonView)>),
}

impl JsonValue {
    /// The value as a mathematical value.
    pub open spec fn model(self) -> JsonView
        decreases self,
    {
        match self {
            JsonValue::Null => JsonView::Null,
            JsonValue::Bool(b) => JsonView::Bool(b),
            JsonValue::Number(n) => JsonView::Number(n@),
            JsonValue::String(s) => JsonView::String(s@),
            JsonValue::Array(items) => JsonView::Array(
                Seq::new(
                    items@.len(),
                    |i: int|
                        if 0 <= i < items@.len() {
                            items@[i].model()
                        } else {
                            JsonView::Null
                        },
                ),
            ),
            JsonValue::Object(members) => JsonView::Object(
                Seq::new(
                    members@.len(),
                    |i: int|
                        if 0 <= i < members@.len() {
                            (members@[i].key@, members@[i].value.model())
                        } else {
                            (Seq::empty(), JsonView::Null)
                        },
                ),
            ),
        }
    }
}


impl View for JsonValue {
    type V = JsonView;

    open spec fn view(&self) -> JsonView {
        self.model()
    }
}

/// Whether `i` is the position of the first member under `key`.
pub open spec fn is_first_member(members: Seq<(Seq<char>, JsonView)>, key: Seq<char>, i: int) -> bool {
    &&& 0 <= i < members.len()
    &&& members[i].0 == key
    &&& forall|j: int| 0 <= j < i ==> members[j].0 != key
}

/// Whether there is a member under `key`.
pub open spec fn has_member(members: Seq<(Seq<char>, JsonView)>, key: Seq<char>) -> bool {
    exists|i: int| is_first_member(members, key, i)
}

/// The position of the first member under `key`.
pub open spec fn first_member(members: Seq<(Seq<char>, JsonView)>, key: Seq<char>) -> int {
    choose|i: int| is_first_member(members, key, i)
}

/// `a` with `b` appended to it, where `b` can be appended to `a`.
///
/// Text is appended to text, the items of an array to an array. An object is
/// appended to an object member by member: each member of `b` is appended to
/// the member of `a` under the same key, which has to be there. Nothing else
/// can be appended to anything.
pub open spec fn merged(a: JsonView, b: JsonView) -> Option<JsonView>
    decreases b, 0nat,
{
    match (a, b) {
        (JsonView::Object(am), JsonView::Object(bm)) => match merged_members(am, bm, 0) {
            Some(members) => Some(JsonView::Object(members)),
            None => None,
        },
        (JsonView::String(x), JsonView::String(y)) => Some(JsonView::String(x + y)),
        (JsonView::Array(x), JsonView::Array(y)) => Some(JsonView::Array(x + y)),
        _ => None,
    }
}

/// The members `am` with the members of `bm` from position `from` on appended
/// to them, one after the other.
pub open spec fn merged_members(
    am: Seq<(Seq<char>, JsonView)>,
    bm: Seq<(Seq<char>, JsonView)>,
    from: nat,
) -> Option<Seq<(Seq<char>, JsonView)>>
    decreases bm, bm.len() - from,
{
    if from >= bm.len() {
        Some(am)
    } else {
        let key = bm[from as int].0;
        if !has_member(am, key) {
            None
        } else {
            let at = first_member(am, key);
            match merged(am[at].1, bm[from as int].1) {
                Some(value) => merged_members(am.update(at, (key, value)), bm, from + 1),
                None => None,
            }
        }
    }
}


/// The members of an object as a mathematical value.
pub open spec fn member_views(members: Seq<Member>) -> Seq<(Seq<char>, JsonView)> {
    Seq::new(members.len(), |i: int| (members[i].key@, members[i].value@))
}

/// The items of an array as a mathematical value.
pub open spec fn item_views(items: Seq<JsonValue>) -> Seq<JsonView> {
    Seq::new(items.len(), |i: int| items[i]@)
}

/// The view of an object is made of the views of its members, and the view of
/// an array of the views of its items.
pub proof fn lemma_views(value: JsonValue)
    ensures
        value matches JsonValue::Object(members) ==> value@ == JsonView::Object(
            member_views(members@),
        ),
        value matches JsonValue::Array(items) ==> value@ == JsonView::Array(item_views(items@)),
{
    match value {
        JsonValue::Object(members) => {
            let views = value@->Object_0;
            assert(views.len() == members@.len());
            assert forall|i: int| 0 <= i < views.len() implies views[i] == member_views(
                members@,
            )[i] by {
                assert(views[i] == (members@[i].key@, members@[i].value.model()));
            }
            assert(views =~= member_views(members@));
        },
        JsonValue::Array(items) => {
            let views = value@->Array_0;
            assert(views.len() == items@.len());
            assert forall|i: int| 0 <= i < views.len() implies views[i] == item_views(items@)[i] by {
                assert(views[i] == items@[i].model());
            }
            assert(views =~= item_views(items@));
        },
        _ => {},
    }
}

/// The position of the first member under `key`, if there is one.
fn find_member(members: &Vec<Member>, key: &String) -> (r: Option<usize>)
    ensures
        match r {
            Some(i) => has_member(member_views(members@), key@) && i == first_member(
                member_views(members@),
                key@,
            ) && i < members@.len(),
            None => !has_member(member_views(members@), key@),
        },
{
    let ghost views = member_views(members@);
    let mut i: usize = 0;
    while i < members.len()
        invariant
            i <= members@.len(),
            views == member_views(members@),
            forall|j: int| 0 <= j < i ==> views[j].0 != key@,
        decreases members@.len() - i,
    {
        if members[i].key == *key {
            proof {
                assert(is_first_member(views, key@, i as int));
                let k = first_member(views, key@);
                assert(is_first_member(views, key@, k));
                assert(k == i);
            }
            return Some(i);
        }
        i += 1;
    }
    proof {
        assert forall|k: int| !is_first_member(views, key@, k) by {
            if 0 <= k < views.len() {
                assert(views[k].0 != key@);
            }
        }
    }
    None
}

/// Appends `b` to `a`. Fails where `b` cannot be appended to `a`.
pub fn merge_append(a: JsonValue, b: JsonValue) -> (r: Result<JsonValue, ProgramError>)
    ensures
        match r {
            Ok(v) => merged(a@, b@) == Some(v@),
            Err(e) => merged(a@, b@) is None && e == custom(MplInscriptionError::InvalidJson),
        },
    decreases b,
{
    proof {
        lemma_views(a);
        lemma_views(b);
    }
    match (a, b) {
        (JsonValue::Object(am), JsonValue::Object(bm)) => {
            let ghost am0 = member_views(am@);
            let ghost bm0 = bm;
            let ghost bv0 = member_views(bm@);
            let mut acc = am;
            let mut rest = bm;
            let ghost mut k: nat = 0;
            while rest.len() > 0
                invariant
                    a@ == JsonView::Object(am0),
                    b@ == JsonView::Object(bv0),
                    b == JsonValue::Object(bm0),
                    bv0 == member_views(bm0@),
                    k + rest@.len() == bm0@.len(),
                    forall|j: int| 0 <= j < rest@.len() ==> rest@[j] == bm0@[k + j],
                    merged_members(am0, bv0, 0) == merged_members(member_views(acc@), bv0, k),
                decreases rest@.len(),
            {
                let member = rest.remove(0);
                let ghost before = member_views(acc@);
                proof {
                    assert(member == bm0@[k as int]);
                    assert(bv0[k as int] == (member.key@, member.value@));
                }
                let at = match find_member(&acc, &member.key) {
                    Some(i) => i,
                    None => {
                        return Err(ProgramError::from(MplInscriptionError::InvalidJson));
                    },
                };
                let target = acc.remove(at);
                proof {
                    assert(before[at as int] == (target.key@, target.value@));
                }
                let Member { key, value } = target;
                let value = match merge_append(value, member.value) {
                    Ok(v) => v,
                    Err(e) => {
                        return Err(e);
                    },
                };
                acc.insert(at, Member { key, value });
                proof {
                    assert(member_views(acc@) =~= before.update(at as int, (member.key@, value@)));
                    k = k + 1;
                }
            }
            let r = JsonValue::Object(acc);
            proof {
                lemma_views(r);
            }
            Ok(r)
        },
        (JsonValue::String(x), JsonValue::String(y)) => Ok(JsonValue::String(x.concat(y.as_str()))),
        (JsonValue::Array(x), JsonValue::Array(y)) => {
            let mut items = x;
            let mut more = y;
            let ghost xv = item_views(items@);
            let ghost yv = item_views(more@);
            items.append(&mut more);
            let r = JsonValue::Array(items);
            proof {
                lemma_views(r);
                assert(item_views(items@) =~= xv + yv);
            }
            Ok(r)
        },
        _ => Err(ProgramError::from(MplInscriptionError::InvalidJson)),
    }
}

} // verus!
