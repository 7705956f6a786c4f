//! The tensor directory of a model file, and how a tensor is found in it.
use vstd::prelude::*;

use crate::order::sorted;
use crate::text::{chars_of, push_decimal, same_text, starts_with};

verus! {

/// The names of the tensors of a model file, in the order of the file.
pub struct TensorDirectory {
    pub names: Vec<String>,
}

impl View for TensorDirectory {
    type V = Seq<Seq<char>>;

    open spec fn view(&self) -> Seq<Seq<char>> {
        self.names.deep_view()
    }
}

/// The place of the tensor with this name. Where a name occurs twice, the last one counts.
pub open spec fn lookup(names: Seq<Seq<char>>, name: Seq<char>) -> Option<usize>
    decreases names.len(),
{
    if names.len() == 0 {
        None
    } else if names.last() == name {
        Some((names.len() - 1) as usize)
    } else {
        lookup(names.drop_last(), name)
    }
}

/// The tensor that has the first of these names that any tensor has.
pub open spec fn lookup_any(names: Seq<Seq<char>>, tried: Seq<Seq<char>>) -> Option<usize>
    decreases tried.len(),
{
    if tried.len() == 0 {
        None
    } else if lookup(names, tried[0]) is Some {
        lookup(names, tried[0])
    } else {
        lookup_any(names, tried.skip(1))
    }
}

/// The position of the dot that comes after `dots` other dots from `from` on, or the end of the
/// text.
pub open spec fn dot_after(text: Seq<char>, from: int, dots: nat) -> int
    decreases text.len() - from,
{
    if from >= text.len() {
        text.len() as int
    } else if text[from] != '.' {
        dot_after(text, from + 1, dots)
    } else if dots == 0 {
        from
    } else {
        dot_after(text, from + 1, (dots - 1) as nat)
    }
}

/// The first two of the parts that a name's dots separate, such as `blk.3`.
pub open spec fn stem(name: Seq<char>) -> Seq<char> {
    name.take(dot_after(name, 0, 1))
}

/// The distinct names that begin with `prefix`, in the order of the file.
pub open spec fn kin(names: Seq<Seq<char>>, prefix: Seq<char>) -> Seq<Seq<char>>
    decreases names.len(),
{
    if names.len() == 0 {
        Seq::empty()
    } else {
        let earlier = kin(names.drop_last(), prefix);
        if crate::text::begins_with(names.last(), prefix) && !earlier.contains(names.last()) {
            earlier.push(names.last())
        } else {
            earlier
        }
    }
}

/// At most eight of the names that share the stem of `name`.
pub open spec fn similar(names: Seq<Seq<char>>, name: Seq<char>) -> Seq<Seq<char>> {
    let all = kin(names, stem(name));
    if all.len() <= 8 {
        all
    } else {
        all.take(8)
    }
}

/// The name of a tensor of layer `layer`.
pub open spec fn layer_tensor(layer: int, suffix: Seq<char>) -> Seq<char> {
    "blk."@ + crate::text::decimal(layer as nat) + "."@ + suffix
}

/// The name of a tensor of layer `layer`.
pub fn layer_tensor_name(layer: usize, suffix: &str) -> (name: String)
    ensures
        name@ == layer_tensor(layer as int, suffix@),
{
    let mut name = "blk.".to_owned();
    push_decimal(&mut name, layer as u128);
    name.append(".");
    name.append(suffix);
    name
}

/// The first two of the parts that a name's dots separate.
fn stem_of(name: &str) -> (text: String)
    ensures
        text@ == stem(name@),
{
    let chars = chars_of(name);
    let mut text = String::new();
    let mut dots: usize = 1;
    let mut i: usize = 0;
    while i < chars.len()
        invariant
            chars@ == name@,
            i <= chars@.len(),
            dots <= 1,
            text@ == name@.take(i as int),
            dot_after(name@, 0, 1) == dot_after(name@, i as int, dots as nat),
        decreases chars@.len() - i,
    {
        if chars[i] == '.' {
            if dots == 0 {
                return text;
            }
            dots -= 1;
        }
        text.push(chars[i]);
        i += 1;
        assert(text@ =~= name@.take(i as int));
    }
    text
}

/// Whether `name` is among `names`.
fn is_among(names: &Vec<String>, name: &str) -> (found: bool)
    ensures
        found == names.deep_view().contains(name@),
{
    let mut i: usize = 0;
    while i < names.len()
        invariant
            i <= names@.len(),
            forall|j: int| 0 <= j < i ==> names.deep_view()[j] != name@,
        decreases names@.len() - i,
    {
        if same_text(names[i].as_str(), name) {
            assert(names.deep_view()[i as int] == name@);
            return true;
        }
        i += 1;
    }
    false
}

impl TensorDirectory {
    /// The place of the tensor with this name.
    pub fn find(&self, name: &str) -> (place: Option<usize>)
        ensures
            place == lookup(self@, name@),
            place matches Some(i) ==> i < self@.len() && self@[i as int] == name@,
    {
        let mut i: usize = self.names.len();
        assert(self@.take(i as int) =~= self@);
        while i > 0
            invariant
                i <= self.names@.len(),
                lookup(self@, name@) == lookup(self@.take(i as int), name@),
            decreases i,
        {
            i -= 1;
            let ghost shorter = self@.take(i + 1);
            assert(shorter.last() == self@[i as int]);
            assert(shorter.drop_last() =~= self@.take(i as int));
            if same_text(self.names[i].as_str(), name) {
                return Some(i);
            }
        }
        None
    }

    /// The tensor that has the first of these names that any tensor has.
    pub fn find_any(&self, tried: &Vec<String>) -> (place: Option<usize>)
        ensures
            place == lookup_any(self@, tried.deep_view()),
            place matches Some(i) ==> i < self@.len(),
    {
        let ghost all = tried.deep_view();
        let mut i: usize = 0;
        assert(all.skip(0) =~= all);
        while i < tried.len()
            invariant
                all == tried.deep_view(),
                i <= tried@.len(),
                lookup_any(self@, all) == lookup_any(self@, all.skip(i as int)),
            decreases tried@.len() - i,
        {
            let place = self.find(tried[i].as_str());
            assert(all.skip(i as int)[0] == tried[i as int]@);
            assert(all.skip(i as int).skip(1) =~= all.skip(i + 1));
            if place.is_some() {
                return place;
            }
            i += 1;
        }
        None
    }

    /// The distinct names that share the stem of `name`, eight at most, sorted.
    pub fn similar_names(&self, name: &str) -> (found: Vec<String>)
        ensures
            crate::order::in_order(found.deep_view()),
            found.deep_view().to_multiset() == similar(self@, name@).to_multiset(),
    {
        let prefix = stem_of(name);
        let mut found: Vec<String> = Vec::new();
        let mut i: usize = 0;
        assert(self@.take(0) =~= Seq::<Seq<char>>::empty());
        assert(found.deep_view() =~= Seq::<Seq<char>>::empty());
        while i < self.names.len()
            invariant
                prefix@ == stem(name@),
                i <= self.names@.len(),
                kin(self@.take(i as int), prefix@).len() <= 8 ==> found.deep_view() == kin(
                    self@.take(i as int),
                    prefix@,
                ),
                kin(self@.take(i as int), prefix@).len() > 8 ==> found.deep_view() == kin(
                    self@.take(i as int),
                    prefix@,
                ).take(8),
            decreases self.names@.len() - i,
        {
            let ghost longer = self@.take(i + 1);
            let ghost earlier = kin(self@.take(i as int), prefix@);
            assert(longer.drop_last() =~= self@.take(i as int));
            assert(longer.last() == self@[i as int]);
            let candidate = self.names[i].clone();
            if found.len() < 8 && starts_with(candidate.as_str(), prefix.as_str()) && !is_among(
                &found,
                candidate.as_str(),
            ) {
                found.push(candidate);
                assert(found.deep_view() =~= earlier.push(self@[i as int]));
            } else {
                assert(kin(longer, prefix@).len() > 8 ==> found.deep_view() =~= kin(
                    longer,
                    prefix@,
                ).take(8));
            }
            i += 1;
        }
        assert(self@.take(i as int) =~= self@);
        sorted(&found)
    }
}

/// Tensors of different layers have different names.
pub proof fn law_layers_share_no_names(l: nat, m: nat, a: Seq<char>, b: Seq<char>)
    requires
        layer_tensor(l as int, a) == layer_tensor(m as int, b),
    ensures
        l == m,
        a == b,
{
    reveal_strlit("blk.");
    reveal_strlit(".");
    let x = crate::text::decimal(l);
    let y = crate::text::decimal(m);
    let left = layer_tensor(l as int, a);
    let right = layer_tensor(m as int, b);
    crate::text::lemma_decimal_nonempty(l);
    crate::text::lemma_decimal_nonempty(m);
    assert(left[4 + x.len() as int] == '.');
    assert(right[4 + y.len() as int] == '.');
    if x.len() < y.len() {
        assert(right[4 + x.len() as int] == y[x.len() as int]);
    }
    if y.len() < x.len() {
        assert(left[4 + y.len() as int] == x[y.len() as int]);
    }
    assert forall|i: int| 0 <= i < x.len() implies x[i] == y[i] by {
        assert(left[4 + i] == x[i]);
        assert(right[4 + i] == y[i]);
    }
    assert(x =~= y);
    crate::text::lemma_decimal_injective(l, m);
    let at = 5 + x.len() as int;
    assert(a =~= left.skip(at));
    assert(b =~= right.skip(at));
}

proof fn lemma_kin(names: Seq<Seq<char>>, prefix: Seq<char>, name: Seq<char>)
    ensures
        kin(names, prefix).contains(name) <==> names.contains(name) && crate::text::begins_with(
            name,
            prefix,
        ),
        kin(names, prefix).no_duplicates(),
    decreases names.len(),
{
    if names.len() > 0 {
        let rest = names.drop_last();
        let last = names.last();
        let earlier = kin(rest, prefix);
        lemma_kin(rest, prefix, name);
        lemma_kin(rest, prefix, last);
        assert(names[names.len() - 1] == last);
        assert(forall|i: int| 0 <= i < rest.len() ==> #[trigger] rest[i] == names[i]);
        if names.contains(name) {
            let i = names.index_of(name);
            if i < rest.len() {
                assert(rest[i] == name);
            }
        }
        if rest.contains(name) {
            assert(names[rest.index_of(name)] == name);
        }
        if crate::text::begins_with(last, prefix) && !earlier.contains(last) {
            let all = earlier.push(last);
            assert(all[earlier.len() as int] == last);
            if earlier.contains(name) {
                assert(all[earlier.index_of(name)] == name);
            }
            if all.contains(name) {
                let i = all.index_of(name);
                if i < earlier.len() {
                    assert(earlier[i] == name);
                }
            }
        }
    }
}

/// The names that are offered in place of a missing one are tensors of the file, no two of them
/// the same and eight at most, and all begin as the missing name does up to its second dot.
/// Where there are fewer than eight, no such tensor was left out.
pub proof fn law_similar_names(names: Seq<Seq<char>>, name: Seq<char>, other: Seq<char>)
    ensures
        similar(names, name).len() <= 8,
        similar(names, name).no_duplicates(),
        similar(names, name).contains(other) ==> names.contains(other)
            && crate::text::begins_with(other, stem(name)),
        similar(names, name).len() < 8 && names.contains(other) && crate::text::begins_with(
            other,
            stem(name),
        ) ==> similar(names, name).contains(other),
{
    let all = kin(names, stem(name));
    lemma_kin(names, stem(name), other);
    let some = similar(names, name);
    if some.contains(other) {
        assert(all[some.index_of(other)] == other);
    }
}

/// The names of a layer's tensors begin alike, up to the number of the layer.
pub proof fn law_stem_of_a_layer(l: nat, suffix: Seq<char>)
    ensures
        stem(layer_tensor(l as int, suffix)) == "blk."@ + crate::text::decimal(l),
{
    reveal_strlit("blk.");
    reveal_strlit(".");
    let name = layer_tensor(l as int, suffix);
    let digits = crate::text::decimal(l);
    let end = 4 + digits.len() as int;
    crate::text::lemma_decimal_nonempty(l);
    assert(name[3] == '.' && name[end] == '.');
    assert(name[0] == 'b' && name[1] == 'l' && name[2] == 'k');
    assert forall|i: int| 4 <= i < end implies #[trigger] name[i] != '.' by {
        assert(name[i] == digits[i - 4]);
    }
    lemma_dot_after(name, 4, end, 0);
    lemma_dot_after(name, 0, 3, 1);
    assert(name.take(end) =~= "blk."@ + digits);
}

/// The next dot is at `at`.
proof fn lemma_dot_after(text: Seq<char>, from: int, at: int, dots: nat)
    requires
        0 <= from <= at < text.len(),
        text[at] == '.',
        forall|i: int| from <= i < at ==> #[trigger] text[i] != '.',
    ensures
        dots == 0 ==> dot_after(text, from, dots) == at,
        dots > 0 ==> dot_after(text, from, dots) == dot_after(text, at + 1, (dots - 1) as nat),
    decreases at - from,
{
    if from < at {
        lemma_dot_after(text, from + 1, at, dots);
    }
}

/// A directory holds the names of the file, in their places.
pub proof fn law_directory_holds_the_names(dir: TensorDirectory, i: int)
    requires
        0 <= i < dir.names@.len(),
    ensures
        dir@.len() == dir.names@.len(),
        dir@[i] == dir.names@[i]@,
{
}

} // verus!
