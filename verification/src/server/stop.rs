//! Where a completion stops.
use vstd::prelude::*;

verus! {

/// `serde_json::Value`, a parsed JSON value.
#[verifier::external_type_specification]
#[verifier::external_body]
pub struct ExValue(serde_json::Value);

/// The text that a JSON string holds; nothing for any other JSON value.
pub uninterp spec fn json_text(value: serde_json::Value) -> Option<Seq<char>>;

/// The items that a JSON array holds; nothing for any other JSON value.
pub uninterp spec fn json_items(value: serde_json::Value) -> Option<Seq<serde_json::Value>>;

/// `serde_json::Value::as_str`: the text of a JSON string, and nothing for any other value.
pub assume_specification[ serde_json::Value::as_str ](value: &serde_json::Value) -> (text: Option<
    &str,
>)
    ensures
        crate::text::text_of(text) == json_text(*value),
;

/// `serde_json::Value::as_array`: the items of a JSON array, and nothing for any other value.
pub assume_specification[ serde_json::Value::as_array ](value: &serde_json::Value) -> (items: Option<
    &Vec<serde_json::Value>,
>)
    ensures
        match items {
            Some(v) => json_items(*value) == Some(v@),
            None => json_items(*value) is None,
        },
;

/// The texts among the items, in order.
pub open spec fn texts_among(items: Seq<Option<Seq<char>>>) -> Seq<Seq<char>>
    decreases items.len(),
{
    if items.len() == 0 {
        Seq::empty()
    } else {
        match items.last() {
            Some(t) => texts_among(items.drop_last()).push(t),
            None => texts_among(items.drop_last()),
        }
    }
}

/// The stop texts of a request: one text, or the texts among a list of items.
pub open spec fn stop_texts(
    text: Option<Seq<char>>,
    items: Option<Seq<Option<Seq<char>>>>,
) -> Seq<Seq<char>> {
    match text {
        Some(t) => seq![t],
        None => match items {
            Some(list) => texts_among(list),
            None => Seq::empty(),
        },
    }
}

/// The items of a list, each with its text if it has one.
pub open spec fn item_texts(items: Seq<serde_json::Value>) -> Seq<Option<Seq<char>>> {
    Seq::new(items.len(), |i: int| json_text(items[i]))
}

/// The stop texts that a request gives as a JSON value.
pub open spec fn stop_texts_of(val: Option<serde_json::Value>) -> Seq<Seq<char>> {
    match val {
        Some(v) => stop_texts(
            json_text(v),
            match json_items(v) {
                Some(items) => Some(item_texts(items)),
                None => None,
            },
        ),
        None => Seq::empty(),
    }
}

/// The views of optional texts.
pub open spec fn views(items: Seq<Option<String>>) -> Seq<Option<Seq<char>>> {
    Seq::new(items.len(), |i: int| crate::text::owned_text(items[i]))
}

/// The texts among the items, in order.
fn keep_texts(items: &Vec<Option<String>>) -> (texts: Vec<String>)
    ensures
        texts.deep_view() == texts_among(views(items@)),
{
    let mut texts: Vec<String> = Vec::new();
    let mut i: usize = 0;
    assert(texts.deep_view() =~= texts_among(views(items@).take(0)));
    while i < items.len()
        invariant
            i <= items@.len(),
            texts.deep_view() == texts_among(views(items@).take(i as int)),
        decreases items@.len() - i,
    {
        let ghost before = views(items@).take(i as int);
        let ghost kept = texts.deep_view();
        if let Some(t) = &items[i] {
            texts.push(t.clone());
            assert(texts.deep_view() =~= kept.push(t@));
        }
        i += 1;
        assert(views(items@).take(i as int).drop_last() =~= before);
    }
    assert(views(items@).take(i as int) =~= views(items@));
    texts
}

/// The stop texts of a request that gives one text, or a list of items of which some are texts.
pub fn collect_stop(text: Option<&str>, items: Option<&Vec<Option<String>>>) -> (stop: Vec<String>)
    ensures
        stop.deep_view() == stop_texts(
            crate::text::text_of(text),
            match items {
                Some(list) => Some(views(list@)),
                None => None,
            },
        ),
{
    match text {
        Some(t) => {
            let mut stop: Vec<String> = Vec::new();
            stop.push(t.to_owned());
            assert(stop.deep_view() =~= seq![t@]);
            stop
        },
        None => match items {
            Some(list) => keep_texts(list),
            None => {
                let stop: Vec<String> = Vec::new();
                assert(stop.deep_view() =~= Seq::empty());
                stop
            },
        },
    }
}

/// The text of each item of a list.
fn texts_of_items(list: &Vec<serde_json::Value>) -> (items: Vec<Option<String>>)
    ensures
        views(items@) == item_texts(list@),
{
    let mut items: Vec<Option<String>> = Vec::new();
    let mut i: usize = 0;
    while i < list.len()
        invariant
            i <= list@.len(),
            items@.len() == i,
            forall|j: int|
                0 <= j < i ==> crate::text::owned_text(#[trigger] items@[j]) == json_text(
                    list@[j],
                ),
        decreases list@.len() - i,
    {
        let item = match list[i].as_str() {
            Some(t) => Some(t.to_owned()),
            None => None,
        };
        items.push(item);
        i += 1;
    }
    assert(views(items@) =~= item_texts(list@));
    items
}

/// The stop texts of a request: a JSON string is one, of a JSON array the strings are.
pub fn parse_stop(val: Option<&serde_json::Value>) -> (stop: Vec<String>)
    ensures
        stop.deep_view() == stop_texts_of(
            match val {
                Some(v) => Some(*v),
                None => None,
            },
        ),
{
    match val {
        Some(v) => match v.as_array() {
            Some(list) => {
                let items = texts_of_items(list);
                collect_stop(v.as_str(), Some(&items))
            },
            None => collect_stop(v.as_str(), None),
        },
        None => collect_stop(None, None),
    }
}

/// The tokens of the encodings that are a single token.
pub open spec fn single_tokens(encodings: Seq<Seq<u32>>) -> Seq<u32>
    decreases encodings.len(),
{
    if encodings.len() == 0 {
        Seq::empty()
    } else if encodings.last().len() == 1 {
        single_tokens(encodings.drop_last()).push(encodings.last()[0])
    } else {
        single_tokens(encodings.drop_last())
    }
}

/// The tokens at which a completion stops: those of the template, then each stop text that is
/// a single token.
pub fn stop_set(template_stops: Vec<u32>, encodings: &Vec<Vec<u32>>) -> (stops: Vec<u32>)
    ensures
        stops@ == template_stops@ + single_tokens(encodings.deep_view()),
{
    let ghost all = encodings.deep_view();
    let mut stops = template_stops;
    let mut i: usize = 0;
    assert(stops@ =~= template_stops@ + single_tokens(all.take(0)));
    while i < encodings.len()
        invariant
            i <= encodings@.len(),
            all == encodings.deep_view(),
            stops@ == template_stops@ + single_tokens(all.take(i as int)),
        decreases encodings@.len() - i,
    {
        let ghost kept = stops@;
        assert(all[i as int] == encodings@[i as int].deep_view());
        assert(encodings@[i as int].deep_view() =~= encodings@[i as int]@);
        if encodings[i].len() == 1 {
            stops.push(encodings[i][0]);
        }
        assert(all.take(i + 1).drop_last() =~= all.take(i as int));
        i += 1;
        assert(stops@ =~= template_stops@ + single_tokens(all.take(i as int)));
    }
    assert(all.take(i as int) =~= all);
    stops
}

/// The tokens of the template stay in the stop set, and a stop text that is a single token
/// joins it.
pub proof fn law_stop_set_holds(
    template_stops: Seq<u32>,
    encodings: Seq<Seq<u32>>,
    token: u32,
)
    ensures
        (template_stops + single_tokens(encodings)).contains(token) <==> template_stops.contains(
            token,
        ) || exists|i: int|
            0 <= i < encodings.len() && #[trigger] encodings[i] == seq![token],
{
    lemma_single_tokens(encodings, token);
    let all = template_stops + single_tokens(encodings);
    if template_stops.contains(token) {
        let i = template_stops.index_of(token);
        assert(all[i] == token);
    }
    if single_tokens(encodings).contains(token) {
        let i = single_tokens(encodings).index_of(token);
        assert(all[template_stops.len() + i] == token);
    }
    if all.contains(token) {
        let i = all.index_of(token);
        if i < template_stops.len() {
            assert(template_stops[i] == token);
        } else {
            assert(single_tokens(encodings)[i - template_stops.len()] == token);
        }
    }
}

proof fn lemma_single_tokens(encodings: Seq<Seq<u32>>, token: u32)
    ensures
        single_tokens(encodings).contains(token) <==> exists|i: int|
            0 <= i < encodings.len() && #[trigger] encodings[i] == seq![token],
    decreases encodings.len(),
{
    if encodings.len() > 0 {
        let rest = encodings.drop_last();
        let last = encodings.last();
        let tokens = single_tokens(rest);
        lemma_single_tokens(rest, token);
        assert(last.len() == 1 && last[0] == token ==> last =~= seq![token]);
        if last.len() == 1 {
            let grown = tokens.push(last[0]);
            assert(single_tokens(encodings) == grown);
            assert(grown[tokens.len() as int] == last[0]);
            if tokens.contains(token) {
                let i = tokens.index_of(token);
                assert(grown[i] == token);
            }
            if grown.contains(token) {
                let i = grown.index_of(token);
                if i < tokens.len() {
                    assert(tokens[i] == token);
                } else {
                    assert(encodings[encodings.len() - 1] == seq![token]);
                }
            }
        }
        if exists|i: int| 0 <= i < rest.len() && #[trigger] rest[i] == seq![token] {
            let i = choose|i: int| 0 <= i < rest.len() && #[trigger] rest[i] == seq![token];
            assert(encodings[i] == seq![token]);
        }
        if exists|i: int| 0 <= i < encodings.len() && #[trigger] encodings[i] == seq![token] {
            let i = choose|i: int|
                0 <= i < encodings.len() && #[trigger] encodings[i] == seq![token];
            if i < rest.len() {
                assert(rest[i] == seq![token]);
            }
        }
    }
}

/// Of a list of items the texts stop a completion, in their order, and no other item does.
pub proof fn law_texts_of_a_list(items: Seq<Option<Seq<char>>>, text: Seq<char>)
    ensures
        texts_among(Seq::empty()) == Seq::<Seq<char>>::empty(),
        texts_among(items.push(Some(text))) == texts_among(items).push(text),
        texts_among(items.push(None)) == texts_among(items),
{
    assert(items.push(Some(text)).drop_last() =~= items);
    assert(items.push(None).drop_last() =~= items);
}

/// A request that gives one JSON string stops at that text. One that gives a list stops at each
/// of its strings: at exactly those texts that an item of the list holds. Any other gives none.
pub proof fn law_request_stops_at_its_texts(value: serde_json::Value, text: Seq<char>)
    ensures
        stop_texts_of(None) == Seq::<Seq<char>>::empty(),
        json_text(value) matches Some(t) ==> stop_texts_of(Some(value)) == seq![t],
        json_text(value) is None && json_items(value) is None ==> stop_texts_of(Some(value))
            == Seq::<Seq<char>>::empty(),
        json_text(value) is None && json_items(value) is Some ==> (stop_texts_of(
            Some(value),
        ).contains(text) <==> exists|i: int|
            0 <= i < (json_items(value)->0).len() && json_text(
                #[trigger] (json_items(value)->0)[i],
            ) == Some(text)),
{
    if json_items(value) is Some {
        let items = json_items(value)->0;
        lemma_texts_among(item_texts(items), text);
        if exists|i: int|
            0 <= i < items.len() && json_text(#[trigger] items[i]) == Some(text) {
            let i = choose|i: int|
                0 <= i < items.len() && json_text(#[trigger] items[i]) == Some(text);
            assert(item_texts(items)[i] == Some(text));
        }
        if exists|i: int|
            0 <= i < items.len() && #[trigger] item_texts(items)[i] == Some(text) {
            let i = choose|i: int|
                0 <= i < items.len() && #[trigger] item_texts(items)[i] == Some(text);
            assert(json_text(items[i]) == Some(text));
        }
    }
}

proof fn lemma_texts_among(items: Seq<Option<Seq<char>>>, text: Seq<char>)
    ensures
        texts_among(items).contains(text) <==> exists|i: int|
            0 <= i < items.len() && #[trigger] items[i] == Some(text),
    decreases items.len(),
{
    if items.len() > 0 {
        let rest = items.drop_last();
        let n = items.len() - 1;
        let kept = texts_among(rest);
        lemma_texts_among(rest, text);
        assert(forall|i: int| 0 <= i < n ==> #[trigger] rest[i] == items[i]);
        if exists|i: int| 0 <= i < n && #[trigger] rest[i] == Some(text) {
            let i = choose|i: int| 0 <= i < n && #[trigger] rest[i] == Some(text);
            assert(items[i] == Some(text));
        }
        if let Some(t) = items.last() {
            let grown = kept.push(t);
            assert(items[n] == Some(t));
            assert(grown[kept.len() as int] == t);
            if kept.contains(text) {
                assert(grown[kept.index_of(text)] == text);
            }
            if grown.contains(text) {
                let k = grown.index_of(text);
                if k < kept.len() {
                    assert(kept[k] == text);
                }
            }
        }
        if exists|i: int| 0 <= i <= n && #[trigger] items[i] == Some(text) {
            let i = choose|i: int| 0 <= i <= n && #[trigger] items[i] == Some(text);
            if i < n {
                assert(rest[i] == Some(text));
            }
        }
    }
}

/// The tokens of a template come first, then the single tokens of the stop texts in their order;
/// a stop text of no token or of several adds none.
pub proof fn law_single_tokens_in_order(encodings: Seq<Seq<u32>>, encoding: Seq<u32>)
    ensures
        single_tokens(Seq::empty()) == Seq::<u32>::empty(),
        encoding.len() == 1 ==> single_tokens(encodings.push(encoding)) == single_tokens(
            encodings,
        ) + encoding,
        encoding.len() != 1 ==> single_tokens(encodings.push(encoding)) == single_tokens(
            encodings,
        ),
{
    assert(encodings.push(encoding).drop_last() =~= encodings);
    if encoding.len() == 1 {
        assert(single_tokens(encodings).push(encoding[0]) =~= single_tokens(encodings)
            + encoding);
    }
}

/// The items of a list keep their places, each with its text if it has one.
pub proof fn law_items_keep_their_texts(items: Seq<Option<String>>, i: int)
    requires
        0 <= i < items.len(),
    ensures
        views(items).len() == items.len(),
        match items[i] {
            Some(text) => views(items)[i] == Some(text@),
            None => views(items)[i] is None,
        },
{
}

} // verus!
