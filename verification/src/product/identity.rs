//! Identity recipes: the field keys whose values identify a note.

use vstd::prelude::*;

use crate::product::notetype::FieldKey;
use crate::str_map::{lemma_sorted_same_members, strictly_sorted, StrMap};

verus! {

/// The model of an identity recipe: its field keys in ascending order.
pub struct IdentityModel {
    pub field_keys: Seq<Seq<char>>,
}

/// The fields whose values identify notes of a note type.
#[derive(Clone, Debug)]
pub struct IdentityRecipe {
    field_keys: Vec<FieldKey>,
}

impl View for IdentityRecipe {
    type V = IdentityModel;

    closed spec fn view(&self) -> IdentityModel {
        IdentityModel { field_keys: self.field_keys@.map_values(|k: FieldKey| k@) }
    }
}

impl IdentityRecipe {
    /// A recipe over the given field keys, sorted, each key once.
    pub fn fields(fields: Vec<String>) -> (r: Self)
        ensures
            strictly_sorted(r@.field_keys),
            forall|k: Seq<char>| r@.field_keys.contains(k) <==> fields@.map_values(|s: String| s@).contains(k),
    {
        let ghost input = fields@.map_values(|s: String| s@);
        let mut set: StrMap<()> = StrMap::new();
        let mut i: usize = 0;
        while i < fields.len()
            invariant
                i <= fields@.len(),
                input == fields@.map_values(|s: String| s@),
                forall|k: Seq<char>| #[trigger] set.get_spec(k) is Some <==> input.take(i as int).contains(k),
            decreases fields.len() - i,
        {
            let key = fields[i].clone();
            let ghost kv = key@;
            set.insert(key, ());
            i += 1;
            assert(input.take(i as int) =~= input.take(i - 1).push(kv));
            assert forall|k: Seq<char>| #[trigger] set.get_spec(k) is Some <==> input.take(i as int).contains(k) by {
                let prev = input.take(i - 1);
                if prev.push(kv).contains(k) {
                    let j = choose|j: int| 0 <= j < prev.push(kv).len() && #[trigger] prev.push(kv)[j] == k;
                    if j < prev.len() {
                        assert(prev[j] == k);
                    }
                }
                if prev.contains(k) {
                    let j = choose|j: int| 0 <= j < prev.len() && #[trigger] prev[j] == k;
                    assert(prev.push(kv)[j] == k);
                }
                if k == kv {
                    assert(prev.push(kv)[prev.len() as int] == k);
                }
            }
        }
        assert(input.take(i as int) =~= input);
        let names = set.key_list();
        let n = set.len();
        let mut keys: Vec<FieldKey> = Vec::new();
        let mut j: usize = 0;
        while j < names.len()
            invariant
                j <= names@.len(),
                names@.len() == set.keys().len(),
                forall|m: int| 0 <= m < names@.len() ==> #[trigger] names@[m]@ == set.keys()[m],
                keys@.len() == j,
                forall|m: int| 0 <= m < j ==> #[trigger] keys@[m]@ == set.keys()[m],
            decreases names.len() - j,
        {
            keys.push(FieldKey::from_string(names[j].clone()));
            j += 1;
        }
        let r = IdentityRecipe { field_keys: keys };
        assert(r@.field_keys =~= set.keys());
        assert forall|k: Seq<char>| r@.field_keys.contains(k) <==> input.contains(k) by {
            if r@.field_keys.contains(k) {
                let m = choose|m: int| 0 <= m < r@.field_keys.len() && r@.field_keys[m] == k;
                assert(set.get_spec(set.keys()[m]) == Some(set.vals()[m]));
            }
            if input.contains(k) {
                assert(set.get_spec(k) is Some);
            }
        }
        r
    }

    /// The recipe's field keys, in ascending order.
    pub fn field_keys(&self) -> (r: Vec<FieldKey>)
        ensures
            r@.map_values(|k: FieldKey| k@) == self@.field_keys,
    {
        let mut r: Vec<FieldKey> = Vec::new();
        let mut i: usize = 0;
        while i < self.field_keys.len()
            invariant
                i <= self.field_keys@.len(),
                r@.len() == i,
                forall|m: int| 0 <= m < i ==> #[trigger] r@[m]@ == self.field_keys@[m]@,
            decreases self.field_keys.len() - i,
        {
            let k = FieldKey::new(self.field_keys[i].as_str());
            r.push(k);
            i += 1;
        }
        assert(r@.map_values(|k: FieldKey| k@) =~= self@.field_keys);
        r
    }
}

/// A recipe depends only on which keys it is given, not on their order or
/// repetition: two recipes made as `IdentityRecipe::fields` makes them, from
/// inputs with the same keys, are equal.
pub proof fn law_recipe_depends_only_on_its_key_set(
    a: Seq<Seq<char>>,
    b: Seq<Seq<char>>,
    ra: IdentityModel,
    rb: IdentityModel,
)
    requires
        strictly_sorted(ra.field_keys),
        forall|k: Seq<char>| ra.field_keys.contains(k) <==> a.contains(k),
        strictly_sorted(rb.field_keys),
        forall|k: Seq<char>| rb.field_keys.contains(k) <==> b.contains(k),
        forall|k: Seq<char>| a.contains(k) <==> b.contains(k),
    ensures
        ra == rb,
{
    assert forall|k: Seq<char>| ra.field_keys.contains(k) <==> rb.field_keys.contains(k) by {
        assert(ra.field_keys.contains(k) <==> a.contains(k));
        assert(rb.field_keys.contains(k) <==> b.contains(k));
    }
    lemma_sorted_same_members(ra.field_keys, rb.field_keys);
    assert(ra =~= rb);
}

} // verus!
