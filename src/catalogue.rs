use vstd::prelude::*;

use crate::license::License;

verus! {

/// An entry of the catalogue manifest: a name, a description, and where the
/// template lies, where there is one.
pub struct CatalogueEntry {
    pub name: String,
    pub desc: String,
    pub path: Option<String>,
}

/// A template that the manifest names but that could be read from neither
/// place it is looked for.
pub struct MissingTemplate {
    pub index: usize,
    pub path: String,
}

/// Whether every entry before `n` that names a template has its text.
pub open spec fn templates_present(
    entries: Seq<CatalogueEntry>,
    templates: Seq<Option<String>>,
    n: int,
) -> bool {
    forall|i: int| 0 <= i < n ==> entries[i].path is Some ==> templates[i] is Some
}

/// The license that an entry gives, with the template text read for it.
pub open spec fn license_of_entry(e: CatalogueEntry, template: Option<String>) -> License {
    License {
        name: e.name,
        desc: e.desc,
        content: if e.path is Some {
            template
        } else {
            Option::None
        },
    }
}

fn copy_text(t: &Option<String>) -> (r: Option<String>)
    ensures
        r == *t,
{
    match t {
        Some(s) => Some(s.clone()),
        Option::None => Option::None,
    }
}

/// Builds the catalogue from the manifest's entries, in their order, and the
/// text read for each (`templates[i]` for `entries[i]`; what stands there
/// for an entry without a path is not looked at). Fails on the first entry
/// that names a template whose text could not be read.
pub fn assemble_catalogue(
    entries: &Vec<CatalogueEntry>,
    templates: &Vec<Option<String>>,
) -> (r: Result<Vec<License>, MissingTemplate>)
    requires
        entries.len() == templates.len(),
    ensures
        r is Ok <==> templates_present(entries@, templates@, entries.len() as int),
        r matches Ok(v) ==> v.len() == entries.len() && forall|i: int|
            0 <= i < v.len() ==> v[i] == license_of_entry(entries[i], templates[i]),
        r matches Err(e) ==> e.index < entries.len() && entries[e.index as int].path == Some(e.path)
            && templates[e.index as int] is None && templates_present(
            entries@,
            templates@,
            e.index as int,
        ),
{
    let mut v: Vec<License> = Vec::new();
    let mut i: usize = 0;
    while i < entries.len()
        invariant
            entries.len() == templates.len(),
            i <= entries.len(),
            v.len() == i,
            templates_present(entries@, templates@, i as int),
            forall|j: int| 0 <= j < i ==> v[j] == license_of_entry(entries[j], templates[j]),
        decreases entries.len() - i,
    {
        let e = &entries[i];
        let content = match &e.path {
            Some(p) => {
                match &templates[i] {
                    Some(_) => copy_text(&templates[i]),
                    Option::None => {
                        return Err(MissingTemplate { index: i, path: p.clone() });
                    },
                }
            },
            Option::None => Option::None,
        };
        v.push(License { name: e.name.clone(), desc: e.desc.clone(), content });
        i = i + 1;
    }
    Ok(v)
}

} // verus!
