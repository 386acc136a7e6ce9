//! The package record a repository's metadata describes, and the two
//! questions asked of it before an install: whether it offers a version,
//! and what it is with its `{{version}}` placeholders filled in.

use vstd::prelude::*;

use crate::package::{resolve_version_placeholder, resolve_version_placeholder_opt, Maintainer};
use crate::text::{chars_of, opt_chars, replace_all, seq_eq, string_of, texts};

verus! {

/// Remote package metadata from a repository.
#[derive(Debug)]
pub struct Package {
    pub id: u64,
    pub repo_name: String,
    pub disabled: Option<bool>,
    pub disabled_reason: Option<String>,
    pub pkg_id: Option<String>,
    pub pkg_name: String,
    pub pkg_family: Option<String>,
    pub pkg_type: Option<String>,
    pub app_id: Option<String>,
    pub description: String,
    pub version: String,
    pub licenses: Option<Vec<String>>,
    pub download_url: String,
    pub size: Option<u64>,
    pub ghcr_pkg: Option<String>,
    pub ghcr_size: Option<u64>,
    pub ghcr_files: Option<Vec<String>>,
    pub ghcr_blob: Option<String>,
    pub ghcr_url: Option<String>,
    pub bsum: Option<String>,
    pub homepages: Option<Vec<String>>,
    pub notes: Option<Vec<String>>,
    pub source_urls: Option<Vec<String>>,
    pub categories: Option<Vec<String>>,
    pub icon: Option<String>,
    pub desktop: Option<String>,
    pub appstream: Option<String>,
    pub build_id: Option<String>,
    pub build_date: Option<String>,
    pub build_action: Option<String>,
    pub build_script: Option<String>,
    pub build_log: Option<String>,
    pub snapshots: Option<Vec<String>>,
    pub repology: Option<Vec<String>>,
    pub maintainers: Option<Vec<Maintainer>>,
    pub replaces: Option<Vec<String>>,
    pub soar_syms: bool,
    pub deprecated: bool,
    pub desktop_integration: Option<bool>,
    pub portable: Option<bool>,
}

/// The texts of an optional list of strings.
pub open spec fn opt_texts(o: Option<Vec<String>>) -> Option<Seq<Seq<char>>> {
    match o {
        Some(v) => Some(texts(v@)),
        None => None,
    }
}

/// The names and contacts of an optional list of maintainers.
pub open spec fn opt_maintainers(o: Option<Vec<Maintainer>>) -> Option<Seq<(Seq<char>, Seq<char>)>> {
    match o {
        Some(v) => Some(v@.map_values(|m: Maintainer| (m.name@, m.contact@))),
        None => None,
    }
}

/// The fields of a package besides its identity, version, download and
/// description, as plain values.
pub type Details = (
    (Option<bool>, Option<Seq<char>>, Option<Seq<char>>, Option<Seq<Seq<char>>>),
    (Option<Seq<Seq<char>>>, Option<Seq<char>>, Option<Seq<char>>, Option<Seq<char>>),
    (Option<Seq<Seq<char>>>, Option<Seq<Seq<char>>>, Option<Seq<Seq<char>>>, Option<Seq<Seq<char>>>),
    (Option<Seq<char>>, Option<Seq<char>>, Option<Seq<char>>),
    (Option<Seq<char>>, Option<Seq<char>>, Option<Seq<char>>, Option<Seq<char>>, Option<Seq<char>>),
    (Option<Seq<Seq<char>>>, Option<Seq<(Seq<char>, Seq<char>)>>, Option<Seq<Seq<char>>>),
    (bool, bool, Option<bool>, Option<bool>),
);

/// What a package says besides its identity, version, download and
/// description.
pub open spec fn details(p: Package) -> Details {
    (
        (p.disabled, opt_chars(p.disabled_reason), opt_chars(p.app_id), opt_texts(p.licenses)),
        (opt_texts(p.ghcr_files), opt_chars(p.ghcr_blob), opt_chars(p.ghcr_url), opt_chars(p.bsum)),
        (opt_texts(p.homepages), opt_texts(p.notes), opt_texts(p.source_urls), opt_texts(p.categories)),
        (opt_chars(p.icon), opt_chars(p.desktop), opt_chars(p.appstream)),
        (
            opt_chars(p.build_id),
            opt_chars(p.build_date),
            opt_chars(p.build_action),
            opt_chars(p.build_script),
            opt_chars(p.build_log),
        ),
        (opt_texts(p.repology), opt_maintainers(p.maintainers), opt_texts(p.replaces)),
        (p.soar_syms, p.deprecated, p.desktop_integration, p.portable),
    )
}

/// The details of a package that says nothing beyond what identifies it.
pub open spec fn no_details() -> Details {
    (
        (None, None, None, None),
        (None, None, None, None),
        (None, None, None, None),
        (None, None, None),
        (None, None, None, None, None),
        (None, None, None),
        (false, false, None, None),
    )
}

impl Default for Package {
    fn default() -> (p: Package)
        ensures
            p.id == 0,
            p.repo_name@ == Seq::<char>::empty(),
            p.pkg_id is None,
            p.pkg_name@ == Seq::<char>::empty(),
            p.pkg_family is None,
            p.pkg_type is None,
            p.description@ == Seq::<char>::empty(),
            p.version@ == Seq::<char>::empty(),
            p.download_url@ == Seq::<char>::empty(),
            p.size is None,
            p.ghcr_pkg is None,
            p.ghcr_size is None,
            p.snapshots is None,
            details(p) == no_details(),
    {
        Package {
            id: 0,
            repo_name: String::new(),
            disabled: None,
            disabled_reason: None,
            pkg_id: None,
            pkg_name: String::new(),
            pkg_family: None,
            pkg_type: None,
            app_id: None,
            description: String::new(),
            version: String::new(),
            licenses: None,
            download_url: String::new(),
            size: None,
            ghcr_pkg: None,
            ghcr_size: None,
            ghcr_files: None,
            ghcr_blob: None,
            ghcr_url: None,
            bsum: None,
            homepages: None,
            notes: None,
            source_urls: None,
            categories: None,
            icon: None,
            desktop: None,
            appstream: None,
            build_id: None,
            build_date: None,
            build_action: None,
            build_script: None,
            build_log: None,
            snapshots: None,
            repology: None,
            maintainers: None,
            replaces: None,
            soar_syms: false,
            deprecated: false,
            desktop_integration: None,
            portable: None,
        }
    }
}

fn copy_text(o: &Option<String>) -> (r: Option<String>)
    ensures
        opt_chars(r) == opt_chars(*o),
{
    match o {
        Some(s) => Some(s.clone()),
        None => None,
    }
}

fn copy_texts(o: &Option<Vec<String>>) -> (r: Option<Vec<String>>)
    ensures
        opt_texts(r) == opt_texts(*o),
{
    match o {
        Some(v) => {
            let mut r: Vec<String> = Vec::new();
            let mut i: usize = 0;
            while i < v.len()
                invariant
                    i <= v@.len(),
                    texts(r@) == texts(v@).subrange(0, i as int),
                decreases v.len() - i,
            {
                let ghost before = texts(r@);
                r.push(v[i].clone());
                assert(texts(r@) =~= before.push(v@[i as int]@));
                i = i + 1;
                assert(texts(r@) =~= texts(v@).subrange(0, i as int));
            }
            assert(texts(v@).subrange(0, v@.len() as int) =~= texts(v@));
            Some(r)
        },
        None => None,
    }
}

fn copy_maintainers(o: &Option<Vec<Maintainer>>) -> (r: Option<Vec<Maintainer>>)
    ensures
        opt_maintainers(r) == opt_maintainers(*o),
{
    match o {
        Some(v) => {
            let ghost f = |m: Maintainer| (m.name@, m.contact@);
            let mut r: Vec<Maintainer> = Vec::new();
            let mut i: usize = 0;
            while i < v.len()
                invariant
                    i <= v@.len(),
                    f == (|m: Maintainer| (m.name@, m.contact@)),
                    r@.map_values(f) == v@.map_values(f).subrange(0, i as int),
                decreases v.len() - i,
            {
                let ghost before = r@.map_values(f);
                let m = Maintainer { name: v[i].name.clone(), contact: v[i].contact.clone() };
                r.push(m);
                assert(r@.map_values(f) =~= before.push(f(v@[i as int])));
                i = i + 1;
                assert(r@.map_values(f) =~= v@.map_values(f).subrange(0, i as int));
            }
            assert(v@.map_values(f).subrange(0, v@.len() as int) =~= v@.map_values(f));
            Some(r)
        },
        None => None,
    }
}

fn as_opt_str(o: &Option<String>) -> (r: Option<&str>)
    ensures
        opt_chars(*o) == match r {
            Some(s) => Some(s@),
            None => None,
        },
{
    match o {
        Some(s) => Some(s.as_str()),
        None => None,
    }
}

/// Whether `version` is offered: it is the current version or one of the
/// snapshots.
pub open spec fn offers(p: Package, version: Seq<char>) -> bool {
    p.version@ == version || (p.snapshots matches Some(s) && texts(s@).contains(version))
}

/// `s` with every `{{version}}` made `version`.
pub open spec fn with_version(s: Seq<char>, version: Seq<char>) -> Seq<char> {
    replace_all(s, "{{version}}"@, version)
}

/// The optional `s` with every `{{version}}` made `version`.
pub open spec fn opt_with_version(s: Option<Seq<char>>, version: Seq<char>) -> Option<Seq<char>> {
    match s {
        Some(x) => Some(with_version(x, version)),
        None => None,
    }
}

impl Package {
    /// Whether this package offers `version`: as its current version or
    /// among its snapshots.
    pub fn has_version(&self, version: &str) -> (b: bool)
        ensures
            b == offers(*self, version@),
    {
        let v = chars_of(version);
        if seq_eq(&chars_of(self.version.as_str()), &v) {
            return true;
        }
        match &self.snapshots {
            Some(s) => {
                let mut i: usize = 0;
                while i < s.len()
                    invariant
                        i <= s@.len(),
                        v@ == version@,
                        self.snapshots matches Some(x) && x@ == s@,
                        forall|k: int| 0 <= k < i ==> texts(s@)[k] != version@,
                    decreases s.len() - i,
                {
                    if seq_eq(&chars_of(s[i].as_str()), &v) {
                        assert(texts(s@)[i as int] == version@);
                        return true;
                    }
                    i = i + 1;
                }
                assert(!texts(s@).contains(version@));
                false
            },
            None => false,
        }
    }

    /// This package with its `{{version}}` placeholders resolved, for
    /// `version` where given (a snapshot, which then becomes the version),
    /// else for its own version. Only the download URL and the registry
    /// references hold placeholders.
    pub fn resolve(&self, version: Option<&str>) -> (r: Package)
        ensures
            ({
                let ver = match version {
                    Some(v) => v@,
                    None => self.version@,
                };
                &&& r.download_url@ == with_version(self.download_url@, ver)
                &&& opt_chars(r.ghcr_pkg) == opt_with_version(opt_chars(self.ghcr_pkg), ver)
                &&& opt_chars(r.ghcr_blob) == opt_with_version(opt_chars(self.ghcr_blob), ver)
                &&& opt_chars(r.ghcr_url) == opt_with_version(opt_chars(self.ghcr_url), ver)
                &&& r.version@ == ver
                &&& r.id == self.id
                &&& r.repo_name@ == self.repo_name@
                &&& opt_chars(r.pkg_id) == opt_chars(self.pkg_id)
                &&& r.pkg_name@ == self.pkg_name@
                &&& opt_chars(r.pkg_family) == opt_chars(self.pkg_family)
                &&& opt_chars(r.pkg_type) == opt_chars(self.pkg_type)
                &&& r.description@ == self.description@
                &&& r.size == self.size
                &&& r.ghcr_size == self.ghcr_size
                &&& opt_texts(r.snapshots) == opt_texts(self.snapshots)
                &&& details(r) == (
                    details(*self).0,
                    (details(*self).1.0, opt_chars(r.ghcr_blob), opt_chars(r.ghcr_url), details(
                        *self,
                    ).1.3),
                    details(*self).2,
                    details(*self).3,
                    details(*self).4,
                    details(*self).5,
                    details(*self).6,
                )
            }),
    {
        let ver = match version {
            Some(v) => string_of(&chars_of(v)),
            None => self.version.clone(),
        };
        let ghcr_pkg = resolve_version_placeholder_opt(as_opt_str(&self.ghcr_pkg), ver.as_str());
        let ghcr_blob = resolve_version_placeholder_opt(as_opt_str(&self.ghcr_blob), ver.as_str());
        let ghcr_url = resolve_version_placeholder_opt(as_opt_str(&self.ghcr_url), ver.as_str());
        Package {
            id: self.id,
            repo_name: self.repo_name.clone(),
            disabled: self.disabled,
            disabled_reason: copy_text(&self.disabled_reason),
            pkg_id: copy_text(&self.pkg_id),
            pkg_name: self.pkg_name.clone(),
            pkg_family: copy_text(&self.pkg_family),
            pkg_type: copy_text(&self.pkg_type),
            app_id: copy_text(&self.app_id),
            description: self.description.clone(),
            download_url: resolve_version_placeholder(self.download_url.as_str(), ver.as_str()),
            version: ver,
            licenses: copy_texts(&self.licenses),
            size: self.size,
            ghcr_pkg,
            ghcr_size: self.ghcr_size,
            ghcr_files: copy_texts(&self.ghcr_files),
            ghcr_blob,
            ghcr_url,
            bsum: copy_text(&self.bsum),
            homepages: copy_texts(&self.homepages),
            notes: copy_texts(&self.notes),
            source_urls: copy_texts(&self.source_urls),
            categories: copy_texts(&self.categories),
            icon: copy_text(&self.icon),
            desktop: copy_text(&self.desktop),
            appstream: copy_text(&self.appstream),
            build_id: copy_text(&self.build_id),
            build_date: copy_text(&self.build_date),
            build_action: copy_text(&self.build_action),
            build_script: copy_text(&self.build_script),
            build_log: copy_text(&self.build_log),
            snapshots: copy_texts(&self.snapshots),
            repology: copy_texts(&self.repology),
            maintainers: copy_maintainers(&self.maintainers),
            replaces: copy_texts(&self.replaces),
            soar_syms: self.soar_syms,
            deprecated: self.deprecated,
            desktop_integration: self.desktop_integration,
            portable: self.portable,
        }
    }
}

} // verus!
