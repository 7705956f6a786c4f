//! The models that the server offers, and how requests name them.
use vstd::prelude::*;

use crate::server::clock::now_secs;
use crate::server::reply::{openai_error, ErrorReply, NOT_FOUND};
use crate::text::{contains, same_text, to_lowercase};

verus! {

/// A model that the server offers.
pub struct ModelConfig {
    pub id: String,
    pub name: String,
    pub path: String,
    pub gpu: bool,
    pub ctx_len: Option<usize>,
    pub max_tokens: Option<usize>,
    pub system_prompt: Option<String>,
    pub stop: Option<Vec<String>>,
}

/// The texts by which a request may name a model, all in lower case.
pub struct ModelNames {
    pub id: String,
    pub name: String,
    pub path: String,
}

/// The characters of the texts by which a request may name a model.
pub struct NamesView {
    pub id: Seq<char>,
    pub name: Seq<char>,
    pub path: Seq<char>,
}

impl View for ModelNames {
    type V = NamesView;

    open spec fn view(&self) -> NamesView {
        NamesView { id: self.id@, name: self.name@, path: self.path@ }
    }
}

/// The names of all models.
pub open spec fn names_views(all: Seq<ModelNames>) -> Seq<NamesView> {
    Seq::new(all.len(), |i: int| all[i]@)
}

/// A request names a model by its id, its name or a part of its path. All texts are in lower
/// case.
pub open spec fn is_named(m: NamesView, request: Seq<char>) -> bool {
    ||| m.id == request
    ||| m.name == request
    ||| crate::text::occurs_in(m.path, request)
}

/// The request holds the id of a model, with other text around it.
pub open spec fn is_mentioned(m: NamesView, request: Seq<char>) -> bool {
    crate::text::occurs_in(request, m.id)
}

/// The request names none of the models.
pub open spec fn none_named(all: Seq<NamesView>, request: Seq<char>) -> bool {
    forall|j: int| 0 <= j < all.len() ==> !is_named(#[trigger] all[j], request)
}

/// The model with index `i` is the first that the request names; where it names none, the first
/// whose id it holds.
pub open spec fn is_pick(all: Seq<NamesView>, request: Seq<char>, i: int) -> bool {
    &&& 0 <= i < all.len()
    &&& if none_named(all, request) {
        &&& is_mentioned(all[i], request)
        &&& forall|j: int| 0 <= j < i ==> !is_mentioned(#[trigger] all[j], request)
    } else {
        &&& is_named(all[i], request)
        &&& forall|j: int| 0 <= j < i ==> !is_named(#[trigger] all[j], request)
    }
}

/// The request names none of the models, and holds the id of none.
pub open spec fn has_no_pick(all: Seq<NamesView>, request: Seq<char>) -> bool {
    &&& none_named(all, request)
    &&& forall|j: int| 0 <= j < all.len() ==> !is_mentioned(#[trigger] all[j], request)
}

/// The names of a model in lower case.
pub open spec fn lowered(m: ModelConfig) -> NamesView {
    NamesView {
        id: crate::text::lowercase(m.id@),
        name: crate::text::lowercase(m.name@),
        path: crate::text::lowercase(m.path@),
    }
}

/// The names of all models in lower case.
pub open spec fn all_lowered(all: Seq<ModelConfig>) -> Seq<NamesView> {
    Seq::new(all.len(), |i: int| lowered(all[i]))
}

/// The request names the model by id, name or path, whatever the case of the letters.
pub open spec fn answers_to(m: ModelConfig, request: Seq<char>) -> bool {
    is_named(lowered(m), crate::text::lowercase(request))
}

/// The model with index `i` is the first that the request names by id, name or path, whatever
/// the case of the letters; where it names none, the first whose id it holds.
pub open spec fn is_first_match(all: Seq<ModelConfig>, request: Seq<char>, i: int) -> bool {
    is_pick(all_lowered(all), crate::text::lowercase(request), i)
}

/// The request names none of the models, and holds the id of none.
pub open spec fn is_unknown(all: Seq<ModelConfig>, request: Seq<char>) -> bool {
    has_no_pick(all_lowered(all), crate::text::lowercase(request))
}

/// Whether a request names a model, where all four texts are in lower case.
pub fn matches_lowered(id: &str, name: &str, path: &str, request: &str) -> (found: bool)
    ensures
        found == is_named((NamesView { id: id@, name: name@, path: path@ }), request@),
{
    same_text(id, request) || same_text(name, request) || contains(path, request)
}

/// The model that a request picks, where all texts are in lower case.
pub fn pick_lowered(all: &Vec<ModelNames>, request: &str) -> (found: Option<usize>)
    ensures
        match found {
            Some(i) => is_pick(names_views(all@), request@, i as int),
            None => has_no_pick(names_views(all@), request@),
        },
{
    let ghost names = names_views(all@);
    let mut i: usize = 0;
    while i < all.len()
        invariant
            i <= all@.len(),
            names == names_views(all@),
            forall|j: int| 0 <= j < i ==> !is_named(#[trigger] names[j], request@),
        decreases all@.len() - i,
    {
        let m = &all[i];
        if matches_lowered(m.id.as_str(), m.name.as_str(), m.path.as_str(), request) {
            assert(is_named(names[i as int], request@));
            return Some(i);
        }
        assert(names[i as int] == m@);
        i += 1;
    }
    let mut k: usize = 0;
    while k < all.len()
        invariant
            k <= all@.len(),
            names == names_views(all@),
            none_named(names, request@),
            forall|j: int| 0 <= j < k ==> !is_mentioned(#[trigger] names[j], request@),
        decreases all@.len() - k,
    {
        if contains(request, all[k].id.as_str()) {
            assert(is_mentioned(names[k as int], request@));
            return Some(k);
        }
        assert(names[k as int] == all@[k as int]@);
        k += 1;
    }
    None
}

/// The names of all models in lower case.
fn lower_names(all: &[ModelConfig]) -> (names: Vec<ModelNames>)
    ensures
        names_views(names@) == all_lowered(all@),
{
    let mut names: Vec<ModelNames> = Vec::new();
    let mut i: usize = 0;
    while i < all.len()
        invariant
            i <= all@.len(),
            names@.len() == i,
            forall|j: int| 0 <= j < i ==> (#[trigger] names@[j])@ == lowered(all@[j]),
        decreases all@.len() - i,
    {
        let m = &all[i];
        names.push(
            ModelNames {
                id: to_lowercase(m.id.as_str()),
                name: to_lowercase(m.name.as_str()),
                path: to_lowercase(m.path.as_str()),
            },
        );
        i += 1;
    }
    assert(names_views(names@) =~= all_lowered(all@));
    names
}

/// The index of the model that the request picks.
pub fn find_model_index(all: &[ModelConfig], req_model: &str) -> (found: Option<usize>)
    ensures
        match found {
            Some(i) => is_first_match(all@, req_model@, i as int),
            None => is_unknown(all@, req_model@),
        },
{
    let names = lower_names(all);
    let lower = to_lowercase(req_model);
    pick_lowered(&names, lower.as_str())
}

/// The first model that the request names by id, name or path, whatever the case of the letters;
/// where it names none, the first whose id it holds.
pub fn find_model<'a>(all: &'a [ModelConfig], req_model: &str) -> (found: Option<&'a ModelConfig>)
    ensures
        match found {
            Some(m) => exists|i: int| #[trigger]
                is_first_match(all@, req_model@, i) && *m == all@[i],
            None => is_unknown(all@, req_model@),
        },
{
    match find_model_index(all, req_model) {
        Some(i) => {
            assert(is_first_match(all@, req_model@, i as int));
            Some(&all[i])
        },
        None => None,
    }
}

/// One entry of the list of models.
pub struct ModelInfo {
    pub id: String,
    pub object: String,
    pub created: u64,
    pub owned_by: String,
    pub permission: Vec<String>,
}

/// The list of models.
pub struct ModelListResponse {
    pub object: String,
    pub data: Vec<ModelInfo>,
}

impl ModelInfo {
    /// The entry of the model with this id: only a loaded model has a permission, `loaded`.
    pub open spec fn describes(self, id: Seq<char>, loaded: bool, created: u64) -> bool {
        &&& self.id@ == id
        &&& self.object@ == "model"@
        &&& self.created == created
        &&& self.owned_by@ == "gguf-rs"@
        &&& self.permission.deep_view() == (if loaded {
            seq!["loaded"@]
        } else {
            Seq::empty()
        })
    }
}

/// The model with this id is the one that is loaded.
pub open spec fn is_loaded_id(loaded: Option<Seq<char>>, id: Seq<char>) -> bool {
    loaded == Some(id)
}

/// The entry of a model that was described at the time `created`.
pub fn model_entry(id: &str, loaded: bool, created: u64) -> (info: ModelInfo)
    ensures
        info.describes(id@, loaded, created),
{
    let mut permission: Vec<String> = Vec::new();
    if loaded {
        permission.push("loaded".to_owned());
    }
    assert(permission.deep_view() =~= (if loaded {
        seq!["loaded"@]
    } else {
        Seq::empty()
    }));
    ModelInfo {
        id: id.to_owned(),
        object: "model".to_owned(),
        created,
        owned_by: "gguf-rs".to_owned(),
        permission,
    }
}

/// All models, each described at a time that the clock gave.
pub fn models_list(all: &[ModelConfig], loaded_id: Option<&str>) -> (list: ModelListResponse)
    ensures
        list.object@ == "list"@,
        list.data@.len() == all@.len(),
        forall|i: int|
            0 <= i < all@.len() ==> (#[trigger] list.data@[i]).describes(
                all@[i].id@,
                is_loaded_id(crate::text::text_of(loaded_id), all@[i].id@),
                list.data@[i].created,
            ) && crate::server::clock::is_clock_secs(list.data@[i].created),
{
    let mut data: Vec<ModelInfo> = Vec::new();
    let mut i: usize = 0;
    while i < all.len()
        invariant
            i <= all@.len(),
            data@.len() == i,
            forall|j: int|
                0 <= j < i ==> (#[trigger] data@[j]).describes(
                    all@[j].id@,
                    is_loaded_id(crate::text::text_of(loaded_id), all@[j].id@),
                    data@[j].created,
                ) && crate::server::clock::is_clock_secs(data@[j].created),
        decreases all@.len() - i,
    {
        let id = all[i].id.as_str();
        let loaded = match loaded_id {
            Some(l) => same_text(l, id),
            None => false,
        };
        data.push(model_entry(id, loaded, now_secs()));
        i += 1;
    }
    ModelListResponse { object: "list".to_owned(), data }
}

/// What the server says of one model.
pub struct ModelCard {
    pub id: String,
    pub object: String,
    pub created: u64,
    pub owned_by: String,
}

impl ModelCard {
    /// The card of the model with this id.
    pub open spec fn describes(self, id: Seq<char>, created: u64) -> bool {
        &&& self.id@ == id
        &&& self.object@ == "model"@
        &&& self.created == created
        &&& self.owned_by@ == "gguf-rs"@
    }
}

/// What is said of a model that is not there.
pub open spec fn not_found_text(model_id: Seq<char>) -> Seq<char> {
    "Model '"@ + model_id + "' not found"@
}

/// The card of a model at the time `created`, or the reply that no such model is there.
pub fn model_card(found: Option<&ModelConfig>, model_id: &str, created: u64) -> (card: Result<
    ModelCard,
    ErrorReply,
>)
    ensures
        match found {
            Some(m) => card matches Ok(c) && c.describes(m.id@, created),
            None => card matches Err(e) && e.says(
                NOT_FOUND,
                "model_not_found"@,
                not_found_text(model_id@),
            ),
        },
{
    match found {
        Some(m) => Ok(
            ModelCard {
                id: m.id.as_str().to_owned(),
                object: "model".to_owned(),
                created,
                owned_by: "gguf-rs".to_owned(),
            },
        ),
        None => {
            let mut message = "Model '".to_owned();
            message.append(model_id);
            message.append("' not found");
            Err(openai_error(NOT_FOUND, "model_not_found", message))
        },
    }
}

/// What the server says of the model that a request names.
pub fn model_info(all: &[ModelConfig], model_id: &str) -> (card: Result<ModelCard, ErrorReply>)
    ensures
        match card {
            Ok(c) => exists|i: int| #[trigger]
                is_first_match(all@, model_id@, i) && c.describes(all@[i].id@, c.created)
                && crate::server::clock::is_clock_secs(c.created),
            Err(e) => is_unknown(all@, model_id@) && e.says(
                NOT_FOUND,
                "model_not_found"@,
                not_found_text(model_id@),
            ),
        },
{
    let found = find_model(all, model_id);
    model_card(found, model_id, now_secs())
}

/// Two requests that differ only in the case of their letters pick the same model.
pub proof fn law_case_does_not_matter(all: Seq<ModelConfig>, a: Seq<char>, b: Seq<char>, i: int)
    requires
        crate::text::lowercase(a) == crate::text::lowercase(b),
    ensures
        is_first_match(all, a, i) == is_first_match(all, b, i),
        is_unknown(all, a) == is_unknown(all, b),
{
}

/// A request for the id or the name of a model that is offered picks a model.
pub proof fn law_ids_and_names_are_known(all: Seq<ModelConfig>, i: int)
    requires
        0 <= i < all.len(),
    ensures
        !is_unknown(all, all[i].id@),
        !is_unknown(all, all[i].name@),
{
    let names = all_lowered(all);
    assert(is_named(names[i], crate::text::lowercase(all[i].id@)));
    assert(is_named(names[i], crate::text::lowercase(all[i].name@)));
}

/// A request that names a model by id, name or path picks the first such model, whatever other
/// ids it holds.
pub proof fn law_named_model_comes_first(
    all: Seq<ModelConfig>,
    request: Seq<char>,
    i: int,
    j: int,
)
    requires
        is_first_match(all, request, i),
        0 <= j < all.len(),
        answers_to(all[j], request),
    ensures
        i <= j,
        answers_to(all[i], request),
{
    let names = all_lowered(all);
    assert(is_named(names[j], crate::text::lowercase(request)));
}

/// A request picks at most one model, and one that picks a model is not unknown.
pub proof fn law_first_match_is_unique(all: Seq<ModelConfig>, request: Seq<char>, i: int, j: int)
    requires
        is_first_match(all, request, i),
        is_first_match(all, request, j),
    ensures
        i == j,
        !is_unknown(all, request),
{
}

/// Which model a request picks, with all texts in lower case: the first that has the request for
/// its id or for its name, or whose path holds the request. Only where there is none it is the
/// first whose id the request holds.
pub proof fn law_pick(all: Seq<ModelConfig>, request: Seq<char>, i: int)
    requires
        0 <= i < all.len(),
    ensures
        ({
            let r = crate::text::lowercase(request);
            let fits = |m: ModelConfig|
                crate::text::lowercase(m.id@) == r || crate::text::lowercase(m.name@) == r
                    || crate::text::occurs_in(crate::text::lowercase(m.path@), r);
            let held = |m: ModelConfig|
                crate::text::occurs_in(r, crate::text::lowercase(m.id@));
            is_first_match(all, request, i) <==> {
                ||| fits(all[i]) && (forall|j: int|
                    0 <= j < i ==> !fits(#[trigger] all[j]))
                ||| (forall|j: int| 0 <= j < all.len() ==> !fits(#[trigger] all[j])) && held(
                    all[i],
                ) && (forall|j: int| 0 <= j < i ==> !held(#[trigger] all[j]))
            }
        }),
{
    let r = crate::text::lowercase(request);
    let names = all_lowered(all);
    let fits = |m: ModelConfig|
        crate::text::lowercase(m.id@) == r || crate::text::lowercase(m.name@) == r
            || crate::text::occurs_in(crate::text::lowercase(m.path@), r);
    let held = |m: ModelConfig| crate::text::occurs_in(r, crate::text::lowercase(m.id@));
    assert forall|j: int| 0 <= j < all.len() implies is_named(#[trigger] names[j], r) == fits(
        all[j],
    ) && is_mentioned(names[j], r) == held(all[j]) by {}
    if none_named(names, r) {
        assert forall|j: int| 0 <= j < all.len() implies !fits(#[trigger] all[j]) by {
            assert(!is_named(names[j], r));
        }
        assert forall|j: int| 0 <= j < i implies is_mentioned(names[j], r) == held(
            #[trigger] all[j],
        ) by {
            assert(is_mentioned(names[j], r) == held(all[j]));
        }
        if is_first_match(all, request, i) {
            assert forall|j: int| 0 <= j < i implies !held(#[trigger] all[j]) by {
                assert(!is_mentioned(names[j], r));
            }
        }
        if forall|j: int| 0 <= j < i ==> !held(#[trigger] all[j]) {
            assert forall|j: int| 0 <= j < i implies !is_mentioned(#[trigger] names[j], r) by {
                assert(!held(all[j]));
            }
        }
    } else {
        let k = choose|k: int| 0 <= k < names.len() && is_named(#[trigger] names[k], r);
        assert(fits(all[k]));
        if is_first_match(all, request, i) {
            assert forall|j: int| 0 <= j < i implies !fits(#[trigger] all[j]) by {
                assert(!is_named(names[j], r));
            }
        }
        if forall|j: int| 0 <= j < i ==> !fits(#[trigger] all[j]) {
            assert forall|j: int| 0 <= j < i implies !is_named(#[trigger] names[j], r) by {
                assert(!fits(all[j]));
            }
        }
    }
}

/// An entry of the list names its model and says by its permissions whether it is loaded; a card
/// names its model. A reply that finds none repeats what was asked for.
pub proof fn law_descriptions_read_back(
    entry: ModelInfo,
    card: ModelCard,
    id: Seq<char>,
    loaded: Option<Seq<char>>,
    created: u64,
)
    requires
        entry.describes(id, is_loaded_id(loaded, id), created),
        card.describes(id, created),
    ensures
        entry.id@ == id,
        entry.object@ == "model"@,
        entry.created == created,
        entry.owned_by@ == "gguf-rs"@,
        loaded == Some(id) ==> entry.permission.deep_view() == seq!["loaded"@],
        loaded != Some(id) ==> entry.permission@.len() == 0,
        card.id@ == id,
        card.object@ == "model"@,
        card.created == created,
        card.owned_by@ == "gguf-rs"@,
        not_found_text(id) == "Model '"@ + id + "' not found"@,
{
    assert(entry.permission.deep_view().len() == entry.permission@.len());
}

/// The texts by which models are named are those of the models, in their places.
pub proof fn law_names_are_kept(all: Seq<ModelNames>, i: int)
    requires
        0 <= i < all.len(),
    ensures
        names_views(all).len() == all.len(),
        names_views(all)[i].id == all[i].id@,
        names_views(all)[i].name == all[i].name@,
        names_views(all)[i].path == all[i].path@,
{
}

/// With texts that are in lower case already: no model before the one that is picked has the
/// request for its id or its name, nor in its path.
pub proof fn law_lowered_pick(all: Seq<NamesView>, request: Seq<char>, i: int)
    requires
        is_pick(all, request, i),
    ensures
        0 <= i < all.len(),
        all[i].id == request || all[i].name == request || crate::text::occurs_in(
            all[i].path,
            request,
        ) || crate::text::occurs_in(request, all[i].id),
        forall|j: int|
            0 <= j < i ==> (#[trigger] all[j]).id != request && all[j].name != request
                && !crate::text::occurs_in(all[j].path, request),
{
    assert forall|j: int| 0 <= j < i implies (#[trigger] all[j]).id != request && all[j].name
        != request && !crate::text::occurs_in(all[j].path, request) by {
        assert(!is_named(all[j], request));
    }
}

} // verus!
