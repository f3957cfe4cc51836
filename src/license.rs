use vstd::prelude::*;

verus! {

/// A license of the catalogue: its name, a short description, and the text
/// of its template where it has one.
#[derive(Debug)]
pub struct License {
    pub name: String,
    pub desc: String,
    pub content: Option<String>,
}

/// The kinds of license that can be recognized, and two more: `Unknown`,
/// a local license file that matches no entry, and `NoLicense`, no local
/// license file at all.
#[derive(Clone, Copy, Debug, PartialEq, Eq, Structural)]
pub enum LicenseType {
    BSD2Clause,
    BSD3Clause,
    BSD4Clause,
    MIT,
    GPLv3,
    LGPLv3,
    AGPLv3,
    Boost,
    MPL2_0,
    Apache2_0,
    Unlicense,
    Unknown,
    NoLicense,
}

impl Clone for License {
    fn clone(&self) -> (r: Self)
        ensures
            r == *self,
    {
        let content = match &self.content {
            Some(c) => Some(c.clone()),
            Option::None => Option::None,
        };
        License { name: self.name.clone(), desc: self.desc.clone(), content }
    }
}

/// The line shown for a license: `<name> - <desc>`, followed by ` (no file)`
/// where it has no template.
pub open spec fn display_of(name: Seq<char>, desc: Seq<char>, has_content: bool) -> Seq<char> {
    name + " - "@ + desc + if has_content {
        Seq::empty()
    } else {
        " (no file)"@
    }
}

impl License {
    pub fn new(name: String, desc: String, content: Option<String>) -> (r: License)
        ensures
            r.name == name,
            r.desc == desc,
            r.content == content,
    {
        License { name, desc, content }
    }

    pub fn name(&self) -> (r: &String)
        ensures
            r == &self.name,
    {
        &self.name
    }

    pub fn desc(&self) -> (r: &String)
        ensures
            r == &self.desc,
    {
        &self.desc
    }

    pub fn content(&self) -> (r: &Option<String>)
        ensures
            r == &self.content,
    {
        &self.content
    }

    /// The line under which the license is listed.
    pub fn display(&self) -> (r: String)
        ensures
            r@ == display_of(self.name@, self.desc@, self.content is Some),
    {
        let mut r = self.name.clone();
        r.append(" - ");
        r.append(self.desc.as_str());
        if self.content.is_none() {
            r.append(" (no file)");
        }
        proof {
            if self.content is Some {
                assert(r@ =~= display_of(self.name@, self.desc@, true));
            }
        }
        r
    }
}

/// The kind that a catalogue name stands for; `Unknown` for a name that is
/// not recognized.
pub open spec fn type_of_name(n: Seq<char>) -> LicenseType {
    if n == "BSD 2-Clause License"@ {
        LicenseType::BSD2Clause
    } else if n == "BSD 3-Clause License"@ {
        LicenseType::BSD3Clause
    } else if n == "BSD 4-Clause License"@ {
        LicenseType::BSD4Clause
    } else if n == "MIT License"@ {
        LicenseType::MIT
    } else if n == "GNU GPL v3"@ {
        LicenseType::GPLv3
    } else if n == "GNU AGPL v3"@ {
        LicenseType::AGPLv3
    } else if n == "GNU LGPL v3"@ {
        LicenseType::LGPLv3
    } else if n == "Mozilla Public License 2.0"@ {
        LicenseType::MPL2_0
    } else if n == "Apache License 2.0"@ {
        LicenseType::Apache2_0
    } else if n == "Boost Software License 1.0"@ {
        LicenseType::Boost
    } else if n == "The Unlicense"@ {
        LicenseType::Unlicense
    } else {
        LicenseType::Unknown
    }
}

/// The catalogue name of a recognized kind; none for `Unknown` and `NoLicense`.
pub open spec fn name_of_type(t: LicenseType) -> Option<Seq<char>> {
    match t {
        LicenseType::BSD2Clause => Some("BSD 2-Clause License"@),
        LicenseType::BSD3Clause => Some("BSD 3-Clause License"@),
        LicenseType::BSD4Clause => Some("BSD 4-Clause License"@),
        LicenseType::MIT => Some("MIT License"@),
        LicenseType::GPLv3 => Some("GNU GPL v3"@),
        LicenseType::AGPLv3 => Some("GNU AGPL v3"@),
        LicenseType::LGPLv3 => Some("GNU LGPL v3"@),
        LicenseType::MPL2_0 => Some("Mozilla Public License 2.0"@),
        LicenseType::Apache2_0 => Some("Apache License 2.0"@),
        LicenseType::Boost => Some("Boost Software License 1.0"@),
        LicenseType::Unlicense => Some("The Unlicense"@),
        LicenseType::Unknown => Option::None,
        LicenseType::NoLicense => Option::None,
    }
}

/// Each recognized kind has its own catalogue name, and that name stands for
/// the kind again.
pub proof fn names_identify_kinds(t: LicenseType)
    requires
        t != LicenseType::Unknown,
        t != LicenseType::NoLicense,
    ensures
        name_of_type(t) is Some,
        type_of_name(name_of_type(t).unwrap()) == t,
{
    reveal_strlit("BSD 2-Clause License");
    reveal_strlit("BSD 3-Clause License");
    reveal_strlit("BSD 4-Clause License");
    reveal_strlit("MIT License");
    reveal_strlit("GNU GPL v3");
    reveal_strlit("GNU AGPL v3");
    reveal_strlit("GNU LGPL v3");
    reveal_strlit("Mozilla Public License 2.0");
    reveal_strlit("Apache License 2.0");
    reveal_strlit("Boost Software License 1.0");
    reveal_strlit("The Unlicense");
    let b2 = "BSD 2-Clause License"@;
    let b3 = "BSD 3-Clause License"@;
    let mit = "MIT License"@;
    let agpl = "GNU AGPL v3"@;
    let mpl = "Mozilla Public License 2.0"@;
    assert(b2.len() == 20 && b3.len() == 20 && "BSD 4-Clause License"@.len() == 20);
    assert(mit.len() == 11 && agpl.len() == 11 && "GNU LGPL v3"@.len() == 11);
    assert("GNU GPL v3"@.len() == 10 && "Apache License 2.0"@.len() == 18);
    assert(mpl.len() == 26 && "Boost Software License 1.0"@.len() == 26);
    assert("The Unlicense"@.len() == 13);
    // names of equal length differ at one of these places
    assert(b3[4] != b2[4]);
    assert("BSD 4-Clause License"@[4] != b2[4] && "BSD 4-Clause License"@[4] != b3[4]);
    assert(agpl[0] != mit[0]);
    assert("GNU LGPL v3"@[0] != mit[0] && "GNU LGPL v3"@[4] != agpl[4]);
    assert("Boost Software License 1.0"@[0] != mpl[0]);
}

/// The kind that a catalogue name stands for.
pub fn license_name_to_type(name: &str) -> (r: LicenseType)
    ensures
        r == type_of_name(name@),
{
    let n = String::from_str(name);
    if n == String::from_str("BSD 2-Clause License") {
        LicenseType::BSD2Clause
    } else if n == String::from_str("BSD 3-Clause License") {
        LicenseType::BSD3Clause
    } else if n == String::from_str("BSD 4-Clause License") {
        LicenseType::BSD4Clause
    } else if n == String::from_str("MIT License") {
        LicenseType::MIT
    } else if n == String::from_str("GNU GPL v3") {
        LicenseType::GPLv3
    } else if n == String::from_str("GNU AGPL v3") {
        LicenseType::AGPLv3
    } else if n == String::from_str("GNU LGPL v3") {
        LicenseType::LGPLv3
    } else if n == String::from_str("Mozilla Public License 2.0") {
        LicenseType::MPL2_0
    } else if n == String::from_str("Apache License 2.0") {
        LicenseType::Apache2_0
    } else if n == String::from_str("Boost Software License 1.0") {
        LicenseType::Boost
    } else if n == String::from_str("The Unlicense") {
        LicenseType::Unlicense
    } else {
        LicenseType::Unknown
    }
}

/// The catalogue name of a kind, where it has one.
pub fn license_type_to_name(ltype: &LicenseType) -> (r: Option<String>)
    ensures
        r matches Some(s) ==> name_of_type(*ltype) == Some(s@),
        r is None ==> name_of_type(*ltype) is None,
{
    match ltype {
        LicenseType::BSD2Clause => Some(String::from_str("BSD 2-Clause License")),
        LicenseType::BSD3Clause => Some(String::from_str("BSD 3-Clause License")),
        LicenseType::BSD4Clause => Some(String::from_str("BSD 4-Clause License")),
        LicenseType::MIT => Some(String::from_str("MIT License")),
        LicenseType::GPLv3 => Some(String::from_str("GNU GPL v3")),
        LicenseType::AGPLv3 => Some(String::from_str("GNU AGPL v3")),
        LicenseType::LGPLv3 => Some(String::from_str("GNU LGPL v3")),
        LicenseType::MPL2_0 => Some(String::from_str("Mozilla Public License 2.0")),
        LicenseType::Apache2_0 => Some(String::from_str("Apache License 2.0")),
        LicenseType::Boost => Some(String::from_str("Boost Software License 1.0")),
        LicenseType::Unlicense => Some(String::from_str("The Unlicense")),
        LicenseType::Unknown => Option::None,
        LicenseType::NoLicense => Option::None,
    }
}

/// The first license of the catalogue whose name is that of `ltype`; none
/// where no entry has it, and for `Unknown` and `NoLicense`.
pub fn license_from_type(ltype: LicenseType, licenses: &Vec<License>) -> (r: Option<License>)
    ensures
        r is Some <==> (exists|i: int|
            0 <= i < licenses.len() && name_of_type(ltype) == Some(licenses@[i].name@)),
        r matches Some(l) ==> (exists|i: int|
            0 <= i < licenses.len() && l == licenses@[i] && name_of_type(ltype) == Some(
                licenses@[i].name@,
            ) && forall|j: int|
                0 <= j < i ==> name_of_type(ltype) != Some(licenses@[j].name@)),
{
    let want = license_type_to_name(&ltype);
    match want {
        Option::None => Option::None,
        Some(n) => {
            let mut i: usize = 0;
            while i < licenses.len()
                invariant
                    i <= licenses.len(),
                    name_of_type(ltype) == Some(n@),
                    forall|j: int| 0 <= j < i ==> licenses@[j].name@ != n@,
                decreases licenses.len() - i,
            {
                if licenses[i].name == n {
                    return Some(licenses[i].clone());
                }
                i = i + 1;
            }
            Option::None
        },
    }
}

} // verus!
