//! Tags declared in a module's metadata file.
use vstd::prelude::*;
use crate::seqs::{flat_map, lemma_flat_map_step, lemma_flat_map_all};
use crate::taxonomy::{first_named, find_named, string_views};
use crate::tree::Entry;

verus! {

/// The name of a module's metadata file.
pub const METADATA_FILE: &'static str = "para.yaml";

/// The key of the tag list in a metadata document.
pub const TAGS_KEY: &'static str = "tags";

/// What `serde_yaml` finds under `key` in the YAML document `text`: nothing
/// where the text does not parse or the key holds no sequence, else each item
/// of the sequence as a string where it is one.
pub uninterp spec fn yaml_sequence_of(text: Seq<char>, key: Seq<char>) -> Option<Seq<Option<Seq<char>>>>;

pub open spec fn item_views(v: Seq<Option<String>>) -> Seq<Option<Seq<char>>> {
    v.map_values(|o: Option<String>| match o {
        Some(s) => Some(s@),
        None => None,
    })
}

pub open spec fn sequence_view(r: Option<Vec<Option<String>>>) -> Option<Seq<Option<Seq<char>>>> {
    match r {
        Some(v) => Some(item_views(v@)),
        None => None,
    }
}

/// Relies on `serde_yaml::from_str`, `Value::get`, `Value::as_sequence` and
/// `Value::as_str`: the items of the sequence under `key`, each as a string
/// where it is one; nothing where the text does not parse or holds no
/// sequence there. The result depends on the two texts alone.
#[verifier::external_body]
fn yaml_sequence(text: &str, key: &str) -> (r: Option<Vec<Option<String>>>)
    ensures
        sequence_view(r) == yaml_sequence_of(text@, key@),
{
    let doc: serde_yaml::Value = serde_yaml::from_str(text).ok()?;
    let items = doc.get(key)?.as_sequence()?;
    let mut r = Vec::new();
    for item in items {
        r.push(item.as_str().map(String::from));
    }
    Some(r)
}

pub open spec fn string_item(o: Option<Seq<char>>) -> Seq<Seq<char>> {
    match o {
        Some(s) => seq![s],
        None => seq![],
    }
}

/// The strings of a sequence, in order; other items are skipped.
pub open spec fn tags_in(items: Option<Seq<Option<Seq<char>>>>) -> Seq<Seq<char>> {
    match items {
        Some(v) => flat_map(v, |o: Option<Seq<char>>| string_item(o)),
        None => seq![],
    }
}

/// The tags that a metadata text declares; none where there is no text.
pub open spec fn metadata_tags(text: Option<Seq<char>>) -> Seq<Seq<char>> {
    match text {
        Some(t) => tags_in(yaml_sequence_of(t, TAGS_KEY@)),
        None => seq![],
    }
}

/// The text of the metadata file of a module, where it was read.
pub open spec fn metadata_text(module: Entry) -> Option<Seq<char>> {
    if exists|i: int| first_named(module.children@, METADATA_FILE@, i) {
        let i = choose|i: int| first_named(module.children@, METADATA_FILE@, i);
        match module.children@[i].text {
            Some(t) => Some(t@),
            None => None,
        }
    } else {
        None
    }
}

/// The tags of a module.
pub open spec fn module_tags(module: Entry) -> Seq<Seq<char>> {
    metadata_tags(metadata_text(module))
}

/// The strings among the items of a sequence, in order.
pub fn tags_from_sequence(items: &Option<Vec<Option<String>>>) -> (r: Vec<String>)
    ensures
        string_views(r@) == tags_in(sequence_view(*items)),
{
    let mut r: Vec<String> = Vec::new();
    match items {
        Some(v) => {
            let ghost f = |o: Option<Seq<char>>| string_item(o);
            let mut i: usize = 0;
            while i < v.len()
                invariant
                    i <= v@.len(),
                    forall|o: Option<Seq<char>>| #[trigger] f(o) == string_item(o),
                    string_views(r@) == flat_map(item_views(v@).take(i as int), f),
                decreases v@.len() - i,
            {
                proof {
                    lemma_flat_map_step(item_views(v@), f, i as int);
                }
                let ghost before = r@;
                match &v[i] {
                    Some(s) => {
                        r.push(s.clone());
                        assert(item_views(v@)[i as int] == Some(s@));
                        assert(f(item_views(v@)[i as int]) == seq![s@]);
                        assert(string_views(r@) =~= string_views(before) + seq![s@]);
                    },
                    None => {
                        assert(item_views(v@)[i as int] == None::<Seq<char>>);
                        assert(f(item_views(v@)[i as int]) =~= Seq::<Seq<char>>::empty());
                    },
                }
                assert(string_views(r@) =~= flat_map(item_views(v@).take(i + 1), f));
                i = i + 1;
            }
            proof {
                lemma_flat_map_all(item_views(v@), f);
            }
            r
        },
        None => {
            assert(string_views(r@) =~= Seq::<Seq<char>>::empty());
            r
        },
    }
}

/// The tags that a metadata text declares.
pub fn metadata_tags_of(text: Option<&String>) -> (r: Vec<String>)
    ensures
        string_views(r@) == metadata_tags(match text {
            Some(t) => Some(t@),
            None => None,
        }),
{
    match text {
        Some(t) => {
            let items = yaml_sequence(t.as_str(), TAGS_KEY);
            tags_from_sequence(&items)
        },
        None => {
            let r: Vec<String> = Vec::new();
            assert(string_views(r@) =~= Seq::<Seq<char>>::empty());
            r
        },
    }
}

/// The tags of a module, read from its metadata file; none where the file
/// is missing or does not parse.
pub fn get_module_tags(module: &Entry) -> (r: Vec<String>)
    ensures
        string_views(r@) == module_tags(*module),
{
    let name = String::from_str(METADATA_FILE);
    match find_named(&module.children, &name) {
        Some(i) => {
            proof {
                let c = choose|c: int| first_named(module.children@, METADATA_FILE@, c);
                assert(first_named(module.children@, METADATA_FILE@, i as int));
                assert(c == i);
            }
            match &module.children[i].text {
                Some(t) => metadata_tags_of(Some(t)),
                None => metadata_tags_of(None),
            }
        },
        None => metadata_tags_of(None),
    }
}

} // verus!
