//! The models that the local server offers, read from its catalogue.

use vstd::prelude::*;
use crate::json::{json_model, json_parse, member_of, models_of, parse_document, Json};
use crate::text::{first_index_of, lemma_first_index_is, lemma_first_index_of, to_chars};

verus! {

/// A model by name, with a description for people.
#[derive(Debug)]
pub struct ModelDescriptor {
    pub name: String,
    pub description: String,
}

/// A model descriptor, as contracts speak of it.
pub struct ModelView {
    pub name: Seq<char>,
    pub description: Seq<char>,
}

impl View for ModelDescriptor {
    type V = ModelView;

    open spec fn view(&self) -> ModelView {
        ModelView { name: self.name@, description: self.description@ }
    }
}

/// `text` with a space in place of each hyphen.
pub open spec fn spaced(text: Seq<char>) -> Seq<char> {
    text.map_values(
        |c: char|
            if c == '-' {
                ' '
            } else {
                c
            },
    )
}

/// The description of the model `name`: the name up to its first colon,
/// which starts the version, with a space in place of each hyphen.
pub open spec fn description_of(name: Seq<char>) -> Seq<char> {
    spaced(name.take(first_index_of(name, ':')))
}

/// A description is no longer than its name, holds neither a colon nor a
/// hyphen, and is as long as the name where the name has no colon.
pub proof fn lemma_description_of(name: Seq<char>)
    ensures
        description_of(name).len() <= name.len(),
        forall|i: int|
            0 <= i < description_of(name).len() ==> description_of(name)[i] != ':'
                && description_of(name)[i] != '-',
        !name.contains(':') ==> description_of(name).len() == name.len(),
{
    lemma_first_index_of(name, ':');
    let cut = first_index_of(name, ':');
    if !name.contains(':') && cut < name.len() {
        assert(name[cut] == ':');
    }
}

/// The descriptor of the model `name`.
pub open spec fn descriptor_of(name: Seq<char>) -> ModelView {
    ModelView { name, description: description_of(name) }
}

/// The name of a catalogue entry: its string `name`, or the empty name
/// where it has none.
pub open spec fn entry_name(entry: Json) -> Seq<char> {
    entry.member("name"@).text_or_empty()
}

/// The names in a catalogue: the name of each element of its array
/// `models`; no names where there is no such array.
pub open spec fn catalogue_names(catalogue: Json) -> Seq<Seq<char>> {
    match catalogue.member("models"@) {
        Json::Array(entries) => entries.map_values(|entry: Json| entry_name(entry)),
        _ => Seq::empty(),
    }
}

/// The descriptors of the models in a catalogue.
pub open spec fn catalogue_models(catalogue: Json) -> Seq<ModelView> {
    catalogue_names(catalogue).map_values(|name: Seq<char>| descriptor_of(name))
}

/// What a sequence of descriptors holds.
pub open spec fn views_of(models: Seq<ModelDescriptor>) -> Seq<ModelView> {
    models.map_values(|model: ModelDescriptor| model@)
}

/// The description of the model `name`.
pub fn describe(name: &str) -> (description: String)
    ensures
        description@ == description_of(name@),
{
    let chars = to_chars(name);
    let mut description = String::new();
    let mut i: usize = 0;
    while i < chars.len() && chars[i] != ':'
        invariant
            i <= chars.len(),
            chars@ == name@,
            forall|j: int| 0 <= j < i ==> chars@[j] != ':',
            description@ == spaced(name@.take(i as int)),
        decreases chars.len() - i,
    {
        let c = if chars[i] == '-' {
            ' '
        } else {
            chars[i]
        };
        description.push(c);
        assert(description@ =~= spaced(name@.take(i + 1)));
        i = i + 1;
    }
    proof {
        lemma_first_index_is(name@, ':', i as int);
    }
    description
}

/// The descriptor of the model `name`.
pub fn descriptor(name: String) -> (model: ModelDescriptor)
    ensures
        model@ == descriptor_of(name@),
{
    let description = describe(name.as_str());
    ModelDescriptor { name, description }
}

/// The descriptors of the models in `catalogue`, in its order.
pub fn catalogue_descriptors(catalogue: &serde_json::Value) -> (models: Vec<ModelDescriptor>)
    ensures
        views_of(models@) == catalogue_models(json_model(*catalogue)),
{
    let mut models: Vec<ModelDescriptor> = Vec::new();
    match member_of(catalogue, "models").as_array() {
        Some(items) => {
            let ghost held = models_of(items@);
            let mut i: usize = 0;
            while i < items.len()
                invariant
                    i <= items.len(),
                    held == models_of(items@),
                    views_of(models@) == held.take(i as int).map_values(
                        |entry: Json| descriptor_of(entry_name(entry)),
                    ),
                decreases items.len() - i,
            {
                let name = match member_of(&items[i], "name").as_str() {
                    Some(text) => text.to_owned(),
                    None => String::new(),
                };
                let model = descriptor(name);
                proof {
                    assert(held[i as int] == json_model(items@[i as int]));
                    assert(views_of(models@.push(model)) =~= views_of(models@).push(model@));
                    assert(held.take(i + 1).map_values(
                        |entry: Json| descriptor_of(entry_name(entry)),
                    ) =~= views_of(models@).push(model@));
                }
                models.push(model);
                i = i + 1;
            }
            proof {
                assert(held.take(items.len() as int) =~= held);
                assert(views_of(models@) =~= catalogue_models(json_model(*catalogue)));
            }
        },
        None => {
            assert(views_of(models@) =~= catalogue_models(json_model(*catalogue)));
        },
    }
    models
}

/// What listing the models of a catalogue text comes to.
pub open spec fn models_listed(payload: Seq<char>) -> Result<Seq<ModelView>, Seq<char>> {
    match json_parse(payload) {
        Ok(catalogue) => Ok(catalogue_models(catalogue)),
        Err(message) => Err(message),
    }
}

/// The models that the catalogue text `payload` offers. A catalogue
/// without the array of models offers none; a text that is no JSON
/// document is an error, with the parser's words.
pub fn list_models(payload: &str) -> (r: Result<Vec<ModelDescriptor>, String>)
    ensures
        match r {
            Ok(models) => models_listed(payload@) == Ok::<Seq<ModelView>, Seq<char>>(
                views_of(models@),
            ),
            Err(message) => models_listed(payload@) == Err::<Seq<ModelView>, Seq<char>>(message@),
        },
{
    match parse_document(payload) {
        Ok(catalogue) => Ok(catalogue_descriptors(&catalogue)),
        Err(message) => Err(message),
    }
}

} // verus!
