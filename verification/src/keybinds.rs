//! Key bindings: each input bound to the name of a key, each key name bound
//! to at most one input, kept in a two-way map of the `bimap` crate.

use vstd::prelude::*;

use bimap::BiHashMap;

use crate::input::Input;

verus! {

#[verifier::external_type_specification]
#[verifier::external_body]
#[verifier::reject_recursive_types(L)]
#[verifier::reject_recursive_types(R)]
#[verifier::reject_recursive_types(LS)]
#[verifier::reject_recursive_types(RS)]
pub struct ExBiHashMap<L, R, LS, RS>(BiHashMap<L, R, LS, RS>);

/// The pairs a two-way map of inputs and key names holds, as a map from each
/// input to its key name.
pub uninterp spec fn bound_keys(m: BiHashMap<Input, String>) -> Map<Input, Seq<char>>;

/// `m` with `input` bound to `key`: the pair that held `input` and the pair
/// that held `key` are removed first.
pub open spec fn bind(m: Map<Input, Seq<char>>, input: Input, key: Seq<char>) -> Map<Input, Seq<char>> {
    Map::new(|i: Input| m.contains_key(i) && i != input && m[i] != key, |i: Input| m[i]).insert(input, key)
}

/// `m` with each pair of `pairs` bound in turn.
pub open spec fn bind_all(m: Map<Input, Seq<char>>, pairs: Seq<(Input, Seq<char>)>) -> Map<Input, Seq<char>>
    decreases pairs.len(),
{
    if pairs.len() == 0 {
        m
    } else {
        bind(bind_all(m, pairs.drop_last()), pairs.last().0, pairs.last().1)
    }
}

/// No input bound to any key.
pub open spec fn no_bindings() -> Map<Input, Seq<char>> {
    Map::empty()
}

/// No two inputs share a key name.
pub open spec fn one_to_one(m: Map<Input, Seq<char>>) -> bool {
    forall|i: Input, j: Input| m.contains_key(i) && m.contains_key(j) && i != j ==> m[i] != m[j]
}

/// Calls `BiHashMap::new`: a map holding no pairs.
#[verifier::external_body]
fn empty_bimap() -> (r: BiHashMap<Input, String>)
    ensures
        bound_keys(r) == no_bindings(),
{
    BiHashMap::new()
}

/// Calls `BiHashMap::insert`, which removes the pair holding `input` and the
/// pair holding `key` (by `==` on inputs and on strings), then inserts the
/// pair of the two. What it returns (the pairs it removed) is dropped.
#[verifier::external_body]
fn bimap_insert(m: &mut BiHashMap<Input, String>, input: Input, key: String)
    ensures
        bound_keys(*final(m)) == bind(bound_keys(*old(m)), input, key@),
{
    m.insert(input, key);
}

/// Calls `BiHashMap::get_by_right`: the input paired with `key`, if any.
#[verifier::external_body]
fn bimap_get_by_right(m: &BiHashMap<Input, String>, key: &str) -> (r: Option<Input>)
    ensures
        match r {
            Some(i) => bound_keys(*m).contains_key(i) && bound_keys(*m)[i] == key@,
            None => forall|i: Input| #[trigger] bound_keys(*m).contains_key(i) ==> bound_keys(*m)[i] != key@,
        },
{
    m.get_by_right(key).copied()
}

/// Calls `BiHashMap::get_by_left`: the key name paired with `input`, if any
/// (copied).
#[verifier::external_body]
fn bimap_get_by_left(m: &BiHashMap<Input, String>, input: &Input) -> (r: Option<String>)
    ensures
        match r {
            Some(k) => bound_keys(*m).contains_key(*input) && bound_keys(*m)[*input] == k@,
            None => !bound_keys(*m).contains_key(*input),
        },
{
    m.get_by_left(input).cloned()
}

/// Calls `BiHashMap::iter`: every pair once, copied, in an order that the
/// map's hashing decides (left unsaid).
#[verifier::external_body]
fn bimap_pairs(m: &BiHashMap<Input, String>) -> (r: Vec<(Input, String)>)
    ensures
        forall|j: int|
            0 <= j < r@.len() ==> bound_keys(*m).contains_key(#[trigger] r@[j].0) && bound_keys(*m)[r@[j].0]
                == r@[j].1@,
        forall|i: Input| #[trigger] bound_keys(*m).contains_key(i) ==> exists|j: int| 0 <= j < r@.len() && r@[j].0 == i,
        forall|j: int, k: int| 0 <= j < k < r@.len() ==> r@[j].0 != r@[k].0,
{
    m.iter().map(|(input, key)| (*input, key.clone())).collect()
}

/// Key bindings of inputs to key names.
pub struct Keybinds {
    map: BiHashMap<Input, String>,
}

impl View for Keybinds {
    type V = Map<Input, Seq<char>>;

    closed spec fn view(&self) -> Map<Input, Seq<char>> {
        bound_keys(self.map)
    }
}

/// The key names of pairs of inputs and strings.
pub open spec fn pair_views(pairs: Seq<(Input, String)>) -> Seq<(Input, Seq<char>)> {
    Seq::new(pairs.len(), |j: int| (pairs[j].0, pairs[j].1@))
}

/// Binding keeps every key name bound to one input.
pub proof fn lemma_bind_one_to_one(m: Map<Input, Seq<char>>, input: Input, key: Seq<char>)
    requires
        one_to_one(m),
    ensures
        one_to_one(bind(m, input, key)),
        bind(m, input, key).contains_key(input),
        bind(m, input, key)[input] == key,
{
}

impl Keybinds {
    /// No bindings.
    pub fn new() -> (r: Keybinds)
        ensures
            r@ == no_bindings(),
            one_to_one(r@),
    {
        Keybinds { map: empty_bimap() }
    }

    /// The bindings of `pairs`, bound in order (a later pair replaces an
    /// earlier one with the same input or the same key name).
    pub fn from_pairs(pairs: Vec<(Input, String)>) -> (r: Keybinds)
        ensures
            r@ == bind_all(no_bindings(), pair_views(pairs@)),
            one_to_one(r@),
    {
        let mut r = Keybinds::new();
        let mut i: usize = 0;
        while i < pairs.len()
            invariant
                i <= pairs@.len(),
                r@ == bind_all(no_bindings(), pair_views(pairs@).take(i as int)),
                one_to_one(r@),
            decreases pairs.len() - i,
        {
            let input = pairs[i].0;
            let key = pairs[i].1.clone();
            assert(pair_views(pairs@).take(i + 1).drop_last() == pair_views(pairs@).take(i as int));
            r.bind(input, key);
            i += 1;
        }
        assert(pair_views(pairs@).take(pairs@.len() as int) == pair_views(pairs@));
        r
    }

    /// Bind `input` to `key`, unbinding whatever input `key` was bound to
    /// and whatever key `input` was bound to.
    pub fn bind(&mut self, input: Input, key: String)
        ensures
            final(self)@ == bind(old(self)@, input, key@),
            one_to_one(old(self)@) ==> one_to_one(final(self)@),
    {
        proof {
            if one_to_one(self@) {
                lemma_bind_one_to_one(self@, input, key@);
            }
        }
        bimap_insert(&mut self.map, input, key);
    }

    /// The input bound to the key named `key`, if any.
    pub fn input_for(&self, key: &str) -> (r: Option<Input>)
        ensures
            match r {
                Some(i) => self@.contains_key(i) && self@[i] == key@,
                None => forall|i: Input| #[trigger] self@.contains_key(i) ==> self@[i] != key@,
            },
    {
        bimap_get_by_right(&self.map, key)
    }

    /// The name of the key bound to `input`, if any.
    pub fn key_for(&self, input: &Input) -> (r: Option<String>)
        ensures
            match r {
                Some(k) => self@.contains_key(*input) && self@[*input] == k@,
                None => !self@.contains_key(*input),
            },
    {
        bimap_get_by_left(&self.map, input)
    }

    /// Every binding once, in no particular order.
    pub fn pairs(&self) -> (r: Vec<(Input, String)>)
        ensures
            forall|j: int|
                0 <= j < r@.len() ==> self@.contains_key(#[trigger] r@[j].0) && self@[r@[j].0] == r@[j].1@,
            forall|i: Input| #[trigger] self@.contains_key(i) ==> exists|j: int| 0 <= j < r@.len() && r@[j].0 == i,
            forall|j: int, k: int| 0 <= j < k < r@.len() ==> r@[j].0 != r@[k].0,
    {
        bimap_pairs(&self.map)
    }
}

/// Whether `s` starts with `prefix`.
fn starts_with(s: &str, prefix: &str) -> (r: bool)
    ensures
        r == prefix@.is_prefix_of(s@),
{
    let n = prefix.unicode_len();
    let m = s.unicode_len();
    if n > m {
        return false;
    }
    let mut i: usize = 0;
    while i < n
        invariant
            i <= n,
            n == prefix@.len(),
            m == s@.len(),
            n <= m,
            forall|j: int| 0 <= j < i ==> prefix@[j] == s@[j],
        decreases n - i,
    {
        if prefix.get_char(i) != s.get_char(i) {
            return false;
        }
        i += 1;
    }
    true
}

/// Capture a key for `input` in the settings panel: while capturing, the
/// key pressed is bound to `input` unless it is Escape (any key whose name
/// starts with "Esc"), which cancels. Capturing stops either way: the result
/// is the new capturing state.
pub fn capture_key(keybinds: &mut Keybinds, capturing: bool, input: Input, key: String) -> (r: bool)
    ensures
        !r,
        capturing && !"Esc"@.is_prefix_of(key@) ==> final(keybinds)@ == bind(old(keybinds)@, input, key@),
        !(capturing && !"Esc"@.is_prefix_of(key@)) ==> final(keybinds)@ == old(keybinds)@,
        one_to_one(old(keybinds)@) ==> one_to_one(final(keybinds)@),
{
    if capturing && !starts_with(key.as_str(), "Esc") {
        keybinds.bind(input, key);
    }
    false
}

/// How a key name is shown: "Space" for the space bar, the arrow keys
/// without "Arrow", other keys as named.
pub open spec fn key_display(key: Seq<char>) -> Seq<char> {
    if key == " "@ {
        "Space"@
    } else if "Arrow"@.is_prefix_of(key) {
        key.skip(5)
    } else {
        key
    }
}

/// The label of the button that binds `input`: its name, then in brackets
/// "<press a key>" while capturing, else the bound key's name, or "<unset>".
pub open spec fn capture_label_text(label: Seq<char>, bound: Option<Seq<char>>, capturing: bool) -> Seq<char> {
    let shown = if capturing {
        "<press a key>"@
    } else {
        match bound {
            Some(k) => key_display(k),
            None => "<unset>"@,
        }
    };
    label + " ("@ + shown + ")"@
}

/// The label of the button that binds `input` (named `label`).
pub fn capture_label(keybinds: &Keybinds, input: Input, label: &str, capturing: bool) -> (r: String)
    ensures
        r@ == capture_label_text(
            label@,
            if keybinds@.contains_key(input) {
                Some(keybinds@[input])
            } else {
                None
            },
            capturing,
        ),
{
    let ghost bound = if keybinds@.contains_key(input) {
        Some(keybinds@[input])
    } else {
        None
    };
    let mut r = String::from_str(label);
    r.append(" (");
    let ghost start = r@;
    assert(start =~= label@ + " ("@);
    if capturing {
        r.append("<press a key>");
    } else {
        match keybinds.key_for(&input) {
            Some(key) => {
                if is_space(key.as_str()) {
                    r.append("Space");
                } else if starts_with(key.as_str(), "Arrow") {
                    proof {
                        reveal_strlit("Arrow");
                    }
                    let len = key.as_str().unicode_len();
                    let rest = key.as_str().substring_char(5, len);
                    assert(rest@ =~= key@.skip(5));
                    r.append(rest);
                } else {
                    r.append(key.as_str());
                }
                assert(bound == Some(key@));
            },
            None => r.append("<unset>"),
        }
    }
    let ghost shown = if capturing {
        "<press a key>"@
    } else {
        match bound {
            Some(k) => key_display(k),
            None => "<unset>"@,
        }
    };
    assert(r@ =~= start + shown);
    r.append(")");
    assert(r@ =~= capture_label_text(label@, bound, capturing));
    r
}

/// Whether `s` is a single space.
fn is_space(s: &str) -> (r: bool)
    ensures
        r == (s@ == " "@),
{
    proof {
        reveal_strlit(" ");
    }
    if s.unicode_len() == 1 && s.get_char(0) == ' ' {
        assert(s@ =~= " "@);
        true
    } else {
        false
    }
}

} // verus!
