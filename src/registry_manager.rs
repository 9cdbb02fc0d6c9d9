//! The local registry of crate sources, and what `cargo info` and a crate's
//! `.cargo_vcs_info.json` say.

use crate::paths::{join_path, path_join};
use crate::text::{
    join, lines, lines_of, line_after_prefix, first_with_prefix, split_all, split_at_text,
    split_once_text, split_text, starts_with, trim, trim_text, slice_text,
};
use crate::version::{semver_parse, version_text, Version, VersionView};
use vstd::prelude::*;
use vstd::string::*;

verus! {

/// A `homepage` on GitHub gives the repository: its first five
/// `/`-separated parts, `https://github.com/<owner>/<repo>`.
pub open spec fn github_repository(home: Seq<char>) -> Option<Seq<char>> {
    let prefix = "https://github.com/"@;
    if prefix.len() <= home.len() && home.take(prefix.len() as int) == prefix {
        let parts = split_all(home, '/');
        if parts.len() >= 5 {
            Some(join(parts.take(5), '/'))
        } else {
            None
        }
    } else {
        None
    }
}

/// The repository that `cargo info` output names: its `repository:` line,
/// else a GitHub `homepage:`.
pub open spec fn repository_in(output: Seq<char>) -> Option<Seq<char>> {
    match first_with_prefix(lines(output), "repository: "@) {
        Some(r) => Some(r),
        None => match first_with_prefix(lines(output), "homepage: "@) {
            Some(h) => github_repository(h),
            None => None,
        },
    }
}

/// The version text of a `version:` line: the version itself, or of
/// `<current> (latest <latest>)` the current one where a version was asked
/// for and the latest one otherwise.
pub open spec fn version_field(desc: Seq<char>, explicit: bool) -> Seq<char> {
    match split_at_text(desc, " (latest "@) {
        Some((current, latest)) => if explicit {
            current
        } else if latest.len() > 0 {
            latest.drop_last()
        } else {
            latest
        },
        None => desc,
    }
}

/// The first `version:` line whose version reads as a semantic version,
/// with whether it named a latest version.
pub open spec fn version_in_lines(ls: Seq<Seq<char>>, explicit: bool) -> Option<(VersionView, bool)>
    decreases ls.len(),
{
    if ls.len() == 0 {
        None
    } else {
        let prefix = "version: "@;
        let l = ls[0];
        let found = if prefix.len() <= l.len() && l.take(prefix.len() as int) == prefix {
            let desc = l.skip(prefix.len() as int);
            match semver_parse(version_field(desc, explicit)) {
                Some(v) => Some((v, split_at_text(desc, " (latest "@) is Some)),
                None => None,
            }
        } else {
            None
        };
        match found {
            Some(x) => Some(x),
            None => version_in_lines(ls.drop_first(), explicit),
        }
    }
}

/// The commit hash that `.cargo_vcs_info.json` gives: of the first line
/// that, trimmed, starts with `"sha1": "`, the rest without its last
/// character (the closing quote).
pub open spec fn sha1_in(data: Seq<char>) -> Option<Seq<char>> {
    match first_with_prefix(lines(data).map_values(|l: Seq<char>| trim(l)), "\"sha1\": \""@) {
        Some(h) => Some(
            if h.len() > 0 {
                h.drop_last()
            } else {
                h
            },
        ),
        None => None,
    }
}

/// Whether a folder name is that of a crates.io registry source.
pub open spec fn is_registry_source(name: Seq<char>) -> bool {
    let prefix = "index.crates.io-"@;
    prefix.len() <= name.len() && name.take(prefix.len() as int) == prefix
}

/// How many of the names are registry sources, up to position `n`.
pub open spec fn count_registry_sources(names: Seq<Seq<char>>) -> nat
    decreases names.len(),
{
    if names.len() == 0 {
        0
    } else {
        count_registry_sources(names.drop_last()) + if is_registry_source(names.last()) {
            1nat
        } else {
            0nat
        }
    }
}

/// Which registry source folder to use among the folder names of the
/// registry's `src` directory, and how many there were.
pub struct RegistryChoice {
    /// Position of the first registry source, if any
    pub first: Option<usize>,
    /// Number of registry sources; more than one is ambiguous
    pub count: usize,
}

/// Picks the first crates.io source folder among `names` and counts them
/// all, so that a caller can warn where there are several.
pub fn choose_registry_source(names: &Vec<String>) -> (r: RegistryChoice)
    ensures
        r.count == count_registry_sources(names@.map_values(|t: String| t@)),
        r.first is None <==> (forall|i: int| 0 <= i < names.len() ==> !is_registry_source(#[trigger] names@[i]@)),
        r.first matches Some(k) ==> k < names.len() && is_registry_source(names@[k as int]@) && forall|i: int|
            0 <= i < k ==> !is_registry_source(#[trigger] names@[i]@),
{
    let ghost nv = names@.map_values(|t: String| t@);
    let mut first: Option<usize> = None;
    let mut count: usize = 0;
    let mut i: usize = 0;
    assert(nv.take(0) =~= Seq::<Seq<char>>::empty());
    while i < names.len()
        invariant
            nv == names@.map_values(|t: String| t@),
            i <= names.len(),
            count == count_registry_sources(nv.take(i as int)),
            count <= i,
            first is None <==> (forall|j: int| 0 <= j < i ==> !is_registry_source(#[trigger] names@[j]@)),
            first matches Some(k) ==> k < i && is_registry_source(names@[k as int]@) && forall|j: int|
                0 <= j < k ==> !is_registry_source(#[trigger] names@[j]@),
        decreases names.len() - i,
    {
        assert(nv.take(i + 1).drop_last() =~= nv.take(i as int));
        assert(nv.take(i + 1).last() == names@[i as int]@);
        if starts_with(names[i].as_str(), "index.crates.io-") {
            count = count + 1;
            if first.is_none() {
                first = Some(i);
            }
        }
        i = i + 1;
    }
    assert(nv.take(names.len() as int) =~= nv);
    RegistryChoice { first, count }
}

/// Manager for the crate sources in the local cargo registry.
#[derive(Debug)]
pub struct RegistryManager {
    /// Path to the registry's source folder
    pub registry_path: String,
}

impl RegistryManager {
    pub fn new(registry_path: String) -> (r: RegistryManager)
        ensures
            r.registry_path@ == registry_path@,
    {
        RegistryManager { registry_path }
    }

    /// Path to the sources of one crate version: `<name>-<version>` in the
    /// registry folder.
    pub fn get_crate_path(&self, crate_name: &str, version: &Version) -> (r: String)
        ensures
            r@ == path_join(self.registry_path@, crate_name@ + seq!['-'] + version_text(version@)),
    {
        proof {
            reveal_strlit("-");
            assert("-"@ =~= seq!['-']);
        }
        let mut folder = String::from_str(crate_name);
        folder.append("-");
        folder.append(version.text().as_str());
        assert(folder@ =~= crate_name@ + seq!['-'] + version_text(version@));
        join_path(self.registry_path.as_str(), folder.as_str())
    }

    /// The repository that the output of `cargo info` names.
    pub fn repository_from_output(output: &str) -> (r: Option<String>)
        ensures
            r is None <==> repository_in(output@) is None,
            r matches Some(t) ==> repository_in(output@) == Some(t@),
    {
        match line_after_prefix(output, "repository: ") {
            Some(r) => return Some(r.to_owned()),
            None => {},
        }
        let home = match line_after_prefix(output, "homepage: ") {
            Some(h) => h,
            None => return None,
        };
        if !starts_with(home, "https://github.com/") {
            return None;
        }
        let parts = split_text(home, '/');
        let ghost pv = parts@.map_values(|t: &str| t@);
        if parts.len() < 5 {
            return None;
        }
        proof {
            reveal_strlit("/");
            assert("/"@ =~= seq!['/']);
        }
        let mut repository = String::new();
        let mut i: usize = 0;
        assert(pv.take(5).take(0) =~= Seq::<Seq<char>>::empty());
        while i < 5
            invariant
                pv == parts@.map_values(|t: &str| t@),
                5 <= parts.len(),
                i <= 5,
                "/"@ == seq!['/'],
                repository@ == join(pv.take(5).take(i as int), '/'),
            decreases 5 - i,
        {
            let ghost before = repository@;
            let ghost t1 = pv.take(5).take(i + 1);
            assert(t1.len() == i + 1);
            assert(t1.drop_last() =~= pv.take(5).take(i as int));
            assert(t1.last() == parts@[i as int]@);
            if i > 0 {
                repository.append("/");
                repository.append(parts[i]);
                assert(join(t1, '/') == join(t1.drop_last(), '/') + seq!['/'] + t1.last());
                assert(repository@ =~= before + seq!['/'] + parts@[i as int]@);
            } else {
                repository.append(parts[i]);
                assert(before =~= Seq::<char>::empty());
                assert(repository@ =~= parts@[0]@);
                assert(join(t1, '/') == t1[0]);
            }
            i = i + 1;
        }
        assert(pv.take(5).take(5) =~= pv.take(5));
        Some(repository)
    }

    /// The version that the output of `cargo info` gives (of the asked-for
    /// version where `explicit`, else the latest one), with whether its line
    /// named a latest version, whose sources may still need fetching.
    pub fn version_from_output(output: &str, explicit: bool) -> (r: Option<(Version, bool)>)
        ensures
            r is None <==> version_in_lines(lines(output@), explicit) is None,
            r matches Some((v, latest)) ==> version_in_lines(lines(output@), explicit) == Some(
                (v@, latest),
            ),
    {
        let ls = lines_of(output);
        let ghost lv = ls@.map_values(|t: &str| t@);
        let mut i: usize = 0;
        assert(lv.skip(0) =~= lv);
        while i < ls.len()
            invariant
                lv == ls@.map_values(|t: &str| t@),
                lv == lines(output@),
                i <= ls.len(),
                version_in_lines(lv.skip(i as int), explicit) == version_in_lines(lv, explicit),
            decreases ls.len() - i,
        {
            let l = ls[i];
            assert(lv.skip(i as int)[0] == l@);
            assert(lv.skip(i as int).drop_first() =~= lv.skip(i + 1));
            if starts_with(l, "version: ") {
                let n = l.unicode_len();
                let m = "version: ".unicode_len();
                let desc = slice_text(l, m, n);
                let (text, latest) = match split_once_text(desc, " (latest ") {
                    Some((current, latest)) => {
                        if explicit {
                            (current, true)
                        } else {
                            let k = latest.unicode_len();
                            if k > 0 {
                                (slice_text(latest, 0, k - 1), true)
                            } else {
                                (latest, true)
                            }
                        }
                    },
                    None => (desc, false),
                };
                assert(text@ =~= version_field(desc@, explicit));
                match Version::parse(text) {
                    Ok(v) => return Some((v, latest)),
                    Err(_) => {},
                }
            }
            i = i + 1;
        }
        None
    }

    /// The commit hash in the text of a `.cargo_vcs_info.json` file.
    pub fn hash_from_vcs_info(data: &str) -> (r: Option<String>)
        ensures
            r is None <==> sha1_in(data@) is None,
            r matches Some(h) ==> sha1_in(data@) == Some(h@),
    {
        let ls = lines_of(data);
        let ghost lv = ls@.map_values(|t: &str| t@);
        let ghost tv = lv.map_values(|l: Seq<char>| trim(l));
        assert(lv == lines(data@));
        let prefix = "\"sha1\": \"";
        let mut i: usize = 0;
        assert(tv.skip(0) =~= tv);
        while i < ls.len()
            invariant
                lv == ls@.map_values(|t: &str| t@),
                tv == lv.map_values(|l: Seq<char>| trim(l)),
                tv == lines(data@).map_values(|l: Seq<char>| trim(l)),
                prefix@ == "\"sha1\": \""@,
                i <= ls.len(),
                first_with_prefix(tv.skip(i as int), prefix@) == first_with_prefix(tv, prefix@),
            decreases ls.len() - i,
        {
            let l = trim_text(ls[i]);
            assert(lv[i as int] == ls[i as int]@);
            assert(tv.skip(i as int)[0] == l@);
            assert(tv.skip(i as int).drop_first() =~= tv.skip(i + 1));
            if starts_with(l, prefix) {
                let n = l.unicode_len();
                let m = prefix.unicode_len();
                let hash = slice_text(l, m, n);
                assert(hash@ =~= l@.skip(m as int));
                let k = hash.unicode_len();
                assert(hash@.subrange(0, k - 1) =~= hash@.drop_last());
                if k > 0 {
                    return Some(slice_text(hash, 0, k - 1).to_owned());
                } else {
                    return Some(hash.to_owned());
                }
            }
            i = i + 1;
        }
        None
    }
}

} // verus!
