//! JSON-like values: what a target hands back and what an assertion expects.
//!
//! A value is held as a tree of plain data. A number is held by its JSON text,
//! so that none is rounded on the way in. An object is a list of members; what
//! it means is the map from their keys to their values, in which a later
//! member takes the place of an earlier one of the same key. Two values are
//! equal when their models are: the same kind, the same text, equal items
//! place by place, equal values key by key.

use vstd::prelude::*;
use vstd::std_specs::cmp::PartialEqSpecImpl;

verus! {

/// A JSON-like value.
#[derive(Debug)]
pub enum JsonValue {
    /// The null value.
    Null,
    /// `true` or `false`.
    Bool(bool),
    /// A number, by its JSON text (`12`, `-3`, `0.5`).
    Number(String),
    /// A string, unescaped.
    String(String),
    /// An array of values.
    Array(Vec<JsonValue>),
    /// An object: its members. Their order does not count, and of members
    /// with the same key the last one does.
    Object(Vec<Member>),
}

/// One member of a JSON object.
#[derive(Debug, Clone, PartialEq, Eq)]
pub struct Member {
    /// The member's name.
    pub key: String,
    /// The member's value.
    pub value: JsonValue,
}

/// The mathematical content of a [`JsonValue`].
pub enum JsonModel {
    Null,
    Bool(bool),
    Number(Seq<char>),
    String(Seq<char>),
    Array(Seq<JsonModel>),
    Object(Map<Seq<char>, JsonModel>),
}

impl JsonValue {
    /// The mathematical content of this value.
    pub open spec fn model(&self) -> JsonModel
        decreases self,
    {
        match self {
            JsonValue::Null => JsonModel::Null,
            JsonValue::Bool(b) => JsonModel::Bool(*b),
            JsonValue::Number(n) => JsonModel::Number(n@),
            JsonValue::String(s) => JsonModel::String(s@),
            JsonValue::Array(items) => JsonModel::Array(Self::models(items@)),
            JsonValue::Object(members) => JsonModel::Object(Self::member_models(members@)),
        }
    }

    /// The models of the items of an array, in order.
    pub open spec fn models(items: Seq<JsonValue>) -> Seq<JsonModel>
        decreases items,
    {
        if items.len() == 0 {
            Seq::empty()
        } else {
            Self::models(items.drop_last()).push(items.last().model())
        }
    }

    /// What the members of an object say: for each key, the model of the
    /// value of the last member that has it.
    pub open spec fn member_models(members: Seq<Member>) -> Map<Seq<char>, JsonModel>
        decreases members,
    {
        if members.len() == 0 {
            Map::empty()
        } else {
            Self::member_models(members.drop_last()).insert(members.last().key@, members.last().value.model())
        }
    }

    /// The place of the last member that has the key, if any has.
    pub open spec fn last_with_key(members: Seq<Member>, key: Seq<char>) -> Option<int>
        decreases members.len(),
    {
        if members.len() == 0 {
            None
        } else if members.last().key@ == key {
            Some(members.len() - 1)
        } else {
            Self::last_with_key(members.drop_last(), key)
        }
    }
}

impl View for JsonValue {
    type V = JsonModel;

    open spec fn view(&self) -> JsonModel {
        self.model()
    }
}

impl JsonValue {
    /// The models of a sequence of values stand at the places of the values.
    pub proof fn lemma_models(items: Seq<JsonValue>)
        ensures
            Self::models(items).len() == items.len(),
            forall|i: int| 0 <= i < items.len() ==> (#[trigger] Self::models(items)[i]) == items[i].model(),
        decreases items.len(),
    {
        if items.len() > 0 {
            Self::lemma_models(items.drop_last());
        }
    }

    /// The map of an object has the keys of its members, and for each key
    /// the value of the last member that has it.
    pub proof fn lemma_member_models(members: Seq<Member>, key: Seq<char>)
        ensures
            match Self::last_with_key(members, key) {
                Some(i) => {
                    &&& 0 <= i < members.len()
                    &&& members[i].key@ == key
                    &&& forall|j: int| i < j < members.len() ==> (#[trigger] members[j]).key@ != key
                    &&& Self::member_models(members).dom().contains(key)
                    &&& Self::member_models(members)[key] == members[i].value.model()
                },
                None => {
                    &&& forall|j: int| 0 <= j < members.len() ==> (#[trigger] members[j]).key@ != key
                    &&& !Self::member_models(members).dom().contains(key)
                },
            },
        decreases members.len(),
    {
        if members.len() > 0 {
            Self::lemma_member_models(members.drop_last(), key);
            if members.last().key@ != key {
                assert forall|j: int| 0 <= j < members.len() && j != members.len() - 1 implies members[j]
                    == members.drop_last()[j] by {}
            }
        }
    }

    /// Members with the same keys and values, place by place, say the same.
    pub proof fn lemma_member_models_alike(a: Seq<Member>, b: Seq<Member>)
        requires
            a.len() == b.len(),
            forall|i: int|
                0 <= i < a.len() ==> (#[trigger] a[i]).key@ == b[i].key@ && a[i].value.model() == b[i].value.model(),
        ensures
            Self::member_models(a) == Self::member_models(b),
        decreases a.len(),
    {
        if a.len() > 0 {
            assert forall|i: int| 0 <= i < a.drop_last().len() implies (#[trigger] a.drop_last()[i]).key@
                == b.drop_last()[i].key@ && a.drop_last()[i].value.model() == b.drop_last()[i].value.model() by {}
            Self::lemma_member_models_alike(a.drop_last(), b.drop_last());
        }
    }

    /// Finds the last member that has the key.
    pub fn find_member(members: &Vec<Member>, key: &String) -> (r: Option<usize>)
        ensures
            match r {
                Some(i) => Self::last_with_key(members@, key@) == Some(i as int),
                None => Self::last_with_key(members@, key@) is None,
            },
    {
        let mut found: Option<usize> = None;
        let mut i: usize = 0;
        while i < members.len()
            invariant
                i <= members.len(),
                match found {
                    Some(j) => Self::last_with_key(members@.take(i as int), key@) == Some(j as int),
                    None => Self::last_with_key(members@.take(i as int), key@) is None,
                },
            decreases members.len() - i,
        {
            assert(members@.take(i + 1).drop_last() =~= members@.take(i as int));
            if members[i].key == *key {
                found = Some(i);
            }
            i += 1;
        }
        assert(members@.take(i as int) =~= members@);
        found
    }

    /// Whether this is the null value.
    pub fn is_null(&self) -> (r: bool)
        ensures
            r == (self@ is Null),
    {
        match self {
            JsonValue::Null => true,
            _ => false,
        }
    }

    /// The text of a string value; `None` for any other kind.
    pub fn as_str(&self) -> (r: Option<&str>)
        ensures
            match r {
                Some(text) => self@ == JsonModel::String(text@),
                None => !(self@ is String),
            },
    {
        match self {
            JsonValue::String(s) => Some(s.as_str()),
            _ => None,
        }
    }

    /// Structural equality: the two values have the same model.
    #[verifier::loop_isolation(false)]
    pub fn equals(&self, other: &JsonValue) -> (r: bool)
        ensures
            r == (self@ == other@),
        decreases *self,
    {
        match (self, other) {
            (JsonValue::Null, JsonValue::Null) => true,
            (JsonValue::Bool(a), JsonValue::Bool(b)) => *a == *b,
            (JsonValue::Number(a), JsonValue::Number(b)) => *a == *b,
            (JsonValue::String(a), JsonValue::String(b)) => *a == *b,
            (JsonValue::Array(a), JsonValue::Array(b)) => {
                let ghost left = self@->Array_0;
                let ghost right = other@->Array_0;
                proof {
                    Self::lemma_models(a@);
                    Self::lemma_models(b@);
                }
                if a.len() != b.len() {
                    return false;
                }
                let mut i: usize = 0;
                while i < a.len()
                    invariant
                        i <= a.len(),
                        a.len() == b.len(),
                        *self == JsonValue::Array(*a),
                        *other == JsonValue::Array(*b),
                        left == self@->Array_0,
                        right == other@->Array_0,
                        left.len() == a.len(),
                        right.len() == b.len(),
                        forall|j: int| 0 <= j < i ==> left[j] == right[j],
                    decreases a.len() - i,
                {
                    proof {
                        Self::lemma_models(a@);
                        Self::lemma_models(b@);
                    }
                    if !a[i].equals(&b[i]) {
                        assert(left[i as int] != right[i as int]);
                        return false;
                    }
                    i += 1;
                }
                assert(left =~= right);
                true
            },
            (JsonValue::Object(a), JsonValue::Object(b)) => {
                let ghost left = Self::member_models(a@);
                let ghost right = Self::member_models(b@);
                let mut i: usize = 0;
                while i < a.len()
                    invariant
                        i <= a.len(),
                        *self == JsonValue::Object(*a),
                        *other == JsonValue::Object(*b),
                        left == Self::member_models(a@),
                        right == Self::member_models(b@),
                        forall|j: int|
                            0 <= j < i ==> right.dom().contains((#[trigger] a[j]).key@) && left[a[j].key@]
                                == right[a[j].key@],
                    decreases a.len() - i,
                {
                    let ghost key = a[i as int].key@;
                    proof {
                        Self::lemma_member_models(a@, key);
                        Self::lemma_member_models(b@, key);
                    }
                    let mine = Self::find_member(a, &a[i].key);
                    let theirs = Self::find_member(b, &a[i].key);
                    match (mine, theirs) {
                        (Some(m), Some(t)) => {
                            if !a[m].value.equals(&b[t].value) {
                                return false;
                            }
                        },
                        _ => {
                            return false;
                        },
                    }
                    i += 1;
                }
                let mut k: usize = 0;
                while k < b.len()
                    invariant
                        k <= b.len(),
                        left == Self::member_models(a@),
                        right == Self::member_models(b@),
                        forall|j: int| 0 <= j < k ==> left.dom().contains((#[trigger] b[j]).key@),
                    decreases b.len() - k,
                {
                    let ghost key = b[k as int].key@;
                    proof {
                        Self::lemma_member_models(a@, key);
                        Self::lemma_member_models(b@, key);
                    }
                    if Self::find_member(a, &b[k].key).is_none() {
                        return false;
                    }
                    k += 1;
                }
                proof {
                    assert forall|key: Seq<char>| left.dom().contains(key) == right.dom().contains(key) by {
                        Self::lemma_member_models(a@, key);
                        Self::lemma_member_models(b@, key);
                    }
                    assert forall|key: Seq<char>| left.dom().contains(key) implies left[key] == right[key] by {
                        Self::lemma_member_models(a@, key);
                    }
                    assert(left =~= right);
                }
                true
            },
            _ => false,
        }
    }
}

impl JsonValue {
    /// A copy with the same model.
    #[verifier::loop_isolation(false)]
    pub fn duplicate(&self) -> (r: Self)
        ensures
            r@ == self@,
        decreases *self,
    {
        match self {
            JsonValue::Null => JsonValue::Null,
            JsonValue::Bool(b) => JsonValue::Bool(*b),
            JsonValue::Number(n) => JsonValue::Number(n.clone()),
            JsonValue::String(s) => JsonValue::String(s.clone()),
            JsonValue::Array(items) => {
                let mut copies: Vec<JsonValue> = Vec::new();
                let mut i: usize = 0;
                while i < items.len()
                    invariant
                        i <= items.len(),
                        *self == JsonValue::Array(*items),
                        copies@.len() == i,
                        forall|j: int| 0 <= j < i ==> copies@[j]@ == items@[j]@,
                    decreases items.len() - i,
                {
                    copies.push(items[i].duplicate());
                    i += 1;
                }
                proof {
                    Self::lemma_models(items@);
                    Self::lemma_models(copies@);
                    assert(Self::models(copies@) =~= Self::models(items@));
                }
                JsonValue::Array(copies)
            },
            JsonValue::Object(members) => {
                let mut copies: Vec<Member> = Vec::new();
                let mut i: usize = 0;
                while i < members.len()
                    invariant
                        i <= members.len(),
                        *self == JsonValue::Object(*members),
                        copies@.len() == i,
                        forall|j: int|
                            0 <= j < i ==> copies@[j].key@ == members@[j].key@ && copies@[j].value@
                                == members@[j].value@,
                    decreases members.len() - i,
                {
                    copies.push(Member { key: members[i].key.clone(), value: members[i].value.duplicate() });
                    i += 1;
                }
                proof {
                    Self::lemma_member_models_alike(copies@, members@);
                }
                JsonValue::Object(copies)
            },
        }
    }
}

impl PartialEq for JsonValue {
    fn eq(&self, other: &Self) -> (r: bool) {
        self.equals(other)
    }
}

impl Eq for JsonValue {

}

impl PartialEqSpecImpl for JsonValue {
    open spec fn obeys_eq_spec() -> bool {
        true
    }

    open spec fn eq_spec(&self, other: &Self) -> bool {
        self@ == other@
    }
}

impl Clone for JsonValue {
    /// A copy with the same model.
    fn clone(&self) -> (r: Self)
        ensures
            r@ == self@,
    {
        self.duplicate()
    }
}

/// The compact JSON text of a value, as `serde_json` writes it.
pub uninterp spec fn json_text(v: JsonModel) -> Seq<char>;

#[verifier::external_type_specification]
#[verifier::external_body]
pub struct ExSerdeValue(serde_json::Value);

/// Builds the `serde_json::Value` that holds the same data, variant by
/// variant. The members of an object are put into a `serde_json::Map` with
/// `Map::insert`, one after the other in their order: `insert` replaces the
/// value of a key that is present, so of members with the same key the last
/// one stays. A number goes through `serde_json::from_str`, which reads its
/// JSON text as a `serde_json::Number`; where that parser reports an error,
/// null stands in, since a value has to be handed on. Nothing is claimed of
/// the result: it is handed on to `render`.
#[verifier::external_body]
fn to_serde(v: &JsonValue) -> serde_json::Value {
    match v {
        JsonValue::Null => serde_json::Value::Null,
        JsonValue::Bool(b) => serde_json::Value::Bool(*b),
        JsonValue::Number(n) => serde_json::from_str(n).map_or(serde_json::Value::Null, serde_json::Value::Number),
        JsonValue::String(s) => serde_json::Value::String(s.clone()),
        JsonValue::Array(items) => serde_json::Value::Array(items.iter().map(to_serde).collect()),
        JsonValue::Object(members) => {
            let mut map = serde_json::Map::new();
            for m in members {
                map.insert(m.key.clone(), to_serde(&m.value));
            }
            serde_json::Value::Object(map)
        },
    }
}

/// Calls `serde_json::Value::to_string`, the `Display` of a JSON value, on the
/// `serde_json::Value` that holds the same data. `serde_json` keeps the
/// members of an object by key, in the order of the keys, and one value for
/// each key, the one inserted last; so the text depends neither on the
/// order in which the members were given nor on members that a later one
/// of the same key replaces. The contract claims only that the text is a
/// function of the value's model, and gives it a name.
#[verifier::external_body]
pub(crate) fn render(v: &JsonValue) -> (text: String)
    ensures
        text@ == json_text(v@),
{
    to_serde(v).to_string()
}

} // verus!
