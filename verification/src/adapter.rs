//! Which operating systems and distributions the scanner supports, and
//! the package-tree reading rules of the Portage family: category
//! directories holding ebuild files, bookkeeping categories skipped,
//! ebuild file names parsed into packages, with an optional renaming
//! prefix per category for products the reference data files under
//! another name.  The directory walk itself happens outside the
//! library; it hands the tree over as category names with the ebuild
//! file names under each.

use vstd::prelude::*;

use crate::package::{convert_to_pkg, spec_parse, Package};
use crate::searchers::{eq_pred, is_match_at, match_at, rfind, spec_rfind, spec_trim};
use crate::strutil::{spec_split_lines, split_lines, str_eq};
use crate::validators::{lemma_pkg_views_push, spec_pkg_views};

verus! {

#[derive(Clone, Copy, Debug, Hash, PartialEq, Eq, Structural)]
pub enum Os {
    GnuLinux,
}

#[derive(Clone, Copy, Debug, PartialEq, Eq, Structural)]
pub enum LinuxDistro {
    Funtoo,
    Gentoo,
}

#[derive(Clone, Copy, Debug, PartialEq, Eq, Structural)]
pub enum OsFlavor {
    LinuxDistro(LinuxDistro),
}

#[derive(Clone, Copy, Debug, PartialEq, Eq, Structural)]
pub enum AdapterError {
    UnsupportedOs,
    UnsupportedDistro,
    NoDistroId,
}

impl Os {
    /// The operating system a platform name (as the compiler's target
    /// names it) stands for; only GNU/Linux is supported.
    pub fn parse(input: &str) -> (r: Result<Os, AdapterError>)
        ensures
            (r is Ok) == (input@ == "linux"@),
            r matches Ok(os) ==> os == Os::GnuLinux,
            r matches Err(e) ==> e == AdapterError::UnsupportedOs,
    {
        if str_eq(input, "linux") {
            Ok(Os::GnuLinux)
        } else {
            Err(AdapterError::UnsupportedOs)
        }
    }
}

impl core::str::FromStr for Os {
    type Err = AdapterError;

    fn from_str(input: &str) -> Result<Os, AdapterError> {
        Os::parse(input)
    }
}

impl LinuxDistro {
    /// The distribution an os-release `ID` value stands for; only the
    /// Portage family is supported.
    pub fn parse(input: &str) -> (r: Result<LinuxDistro, AdapterError>)
        ensures
            (r is Ok) == (input@ == "funtoo"@ || input@ == "gentoo"@),
            r matches Ok(d) ==> d == (if input@ == "funtoo"@ {
                LinuxDistro::Funtoo
            } else {
                LinuxDistro::Gentoo
            }),
            r matches Err(e) ==> e == AdapterError::UnsupportedDistro,
    {
        if str_eq(input, "funtoo") {
            Ok(LinuxDistro::Funtoo)
        } else if str_eq(input, "gentoo") {
            Ok(LinuxDistro::Gentoo)
        } else {
            Err(AdapterError::UnsupportedDistro)
        }
    }
}

impl core::str::FromStr for LinuxDistro {
    type Err = AdapterError;

    fn from_str(input: &str) -> Result<LinuxDistro, AdapterError> {
        LinuxDistro::parse(input)
    }
}

/// The supported systems: each operating system with its flavors.
pub fn get_supported_map() -> (r: Vec<(Os, Vec<OsFlavor>)>)
    ensures
        r@.len() == 1,
        r@[0].0 == Os::GnuLinux,
        r@[0].1@ == seq![
            OsFlavor::LinuxDistro(LinuxDistro::Funtoo),
            OsFlavor::LinuxDistro(LinuxDistro::Gentoo),
        ],
{
    let mut flavors: Vec<OsFlavor> = Vec::new();
    flavors.push(OsFlavor::LinuxDistro(LinuxDistro::Funtoo));
    flavors.push(OsFlavor::LinuxDistro(LinuxDistro::Gentoo));
    proof {
        assert(flavors@ =~= seq![
            OsFlavor::LinuxDistro(LinuxDistro::Funtoo),
            OsFlavor::LinuxDistro(LinuxDistro::Gentoo),
        ]);
    }
    let mut r: Vec<(Os, Vec<OsFlavor>)> = Vec::new();
    r.push((Os::GnuLinux, flavors));
    r
}

/// The os-release file to read: `/etc/os-release` takes precedence over
/// `/usr/lib/os-release` when it exists.
pub fn get_os_release_path(etc_exists: bool) -> (r: &'static str)
    ensures
        r@ == if etc_exists {
            "/etc/os-release"@
        } else {
            "/usr/lib/os-release"@
        },
{
    if etc_exists {
        "/etc/os-release"
    } else {
        "/usr/lib/os-release"
    }
}

/// The first os-release line that names the distribution id.
pub open spec fn spec_id_line(lines: Seq<Seq<char>>) -> Option<Seq<char>>
    decreases lines.len(),
{
    if lines.len() == 0 {
        None
    } else if is_match_at(lines[0], "ID="@, 0) {
        Some(lines[0])
    } else {
        spec_id_line(lines.drop_first())
    }
}

/// The distribution id an os-release text names: the value of its first
/// `ID=` line, surrounding quotes stripped.
pub open spec fn spec_distro_id(text: Seq<char>) -> Option<Seq<char>> {
    match spec_id_line(spec_split_lines(text)) {
        Some(line) => Some(spec_trim(line.skip("ID="@.len() as int), eq_pred('"'))),
        None => None,
    }
}

/// Reads the distribution id out of an os-release text.  Fails exactly
/// when no line of the text names one.
pub fn get_distro_id(text: &str) -> (r: Result<String, AdapterError>)
    ensures
        r matches Ok(id) ==> spec_distro_id(text@) == Some(id@),
        (r is Err) == (spec_distro_id(text@) is None),
        r matches Err(e) ==> e == AdapterError::NoDistroId,
{
    let lines = split_lines(text);
    let n = lines.len();
    let mut i: usize = 0;
    proof {
        assert(lines.deep_view().skip(0) =~= lines.deep_view());
    }
    while i < n
        invariant
            i <= n,
            n == lines@.len(),
            lines.deep_view() == spec_split_lines(text@),
            spec_id_line(lines.deep_view()) == spec_id_line(lines.deep_view().skip(i as int)),
        decreases n - i,
    {
        proof {
            reveal_strlit("ID=");
            assert(lines.deep_view().skip(i as int)[0] == lines@[i as int]@);
            assert(lines.deep_view().skip(i as int).drop_first() =~= lines.deep_view().skip(i + 1));
        }
        let plen = "ID=".unicode_len();
        let line = &lines[i];
        let llen = line.as_str().unicode_len();
        if llen >= plen && match_at(line.as_str(), "ID=", 0) {
            let value = line.as_str().substring_char(plen, llen);
            proof {
                assert(value@ =~= line@.skip("ID="@.len() as int));
            }
            return Ok(crate::searchers::trim_char(value, '"'));
        }
        i = i + 1;
    }
    proof {
        assert(lines.deep_view().skip(n as int).len() == 0);
    }
    Err(AdapterError::NoDistroId)
}

/// A category directory the walk must pass over: Portage bookkeeping
/// trees and hidden directories hold no installable packages.
pub open spec fn spec_skipped_category(c: Seq<char>) -> bool {
    ||| c == "eclass"@
    ||| c == "licenses"@
    ||| c == "metadata"@
    ||| c == "profiles"@
    ||| c == "virtual"@
    ||| (c.len() > 0 && c[0] == '.')
}

fn skipped_category(c: &str) -> (r: bool)
    ensures
        r == spec_skipped_category(c@),
{
    if str_eq(c, "eclass") || str_eq(c, "licenses") || str_eq(c, "metadata") || str_eq(c, "profiles")
        || str_eq(c, "virtual") {
        return true;
    }
    let n = c.unicode_len();
    n > 0 && c.get_char(0) == '.'
}

/// A file name with the ebuild suffix.
pub open spec fn spec_is_ebuild_name(f: Seq<char>) -> bool {
    f.len() >= ".ebuild"@.len() && is_match_at(f, ".ebuild"@, f.len() - ".ebuild"@.len())
}

/// The package part of an ebuild file name: what stands between the
/// last two occurrences of the suffix marker, or everything before the
/// last one when it occurs once.
pub open spec fn spec_ebuild_stem(f: Seq<char>) -> Seq<char> {
    match spec_rfind(f, ".ebuild"@) {
        Some(k) => match spec_rfind(f.take(k), ".ebuild"@) {
            Some(p) => f.subrange(p + ".ebuild"@.len(), k),
            None => f.take(k),
        },
        None => f,
    }
}

/// The (name, version) views of the package a raw entry parses to, or
/// nothing.
pub open spec fn spec_pkg_opt_views(s: Seq<char>) -> Seq<(Seq<char>, Seq<char>)> {
    match spec_parse(s) {
        Some(t) => seq![t],
        None => Seq::empty(),
    }
}

/// The option's view, for an optional category prefix.
pub open spec fn spec_opt_view(prefix: Option<&String>) -> Option<Seq<char>> {
    match prefix {
        Some(p) => Some(p@),
        None => None,
    }
}

/// The packages a list of directory entries yields: each ebuild file
/// name is stripped to its stem and parsed, and, under a renaming
/// prefix, its prefixed form is parsed too.
pub open spec fn spec_pkgs_from_ebuilds(names: Seq<Seq<char>>, prefix: Option<Seq<char>>) -> Seq<
    (Seq<char>, Seq<char>),
>
    decreases names.len(),
{
    if names.len() == 0 {
        Seq::empty()
    } else {
        let rest = spec_pkgs_from_ebuilds(names.drop_last(), prefix);
        let f = names.last();
        if spec_is_ebuild_name(f) {
            let stem = spec_ebuild_stem(f);
            rest + spec_pkg_opt_views(stem) + (match prefix {
                Some(p) => spec_pkg_opt_views(p + stem),
                None => Seq::empty(),
            })
        } else {
            rest
        }
    }
}

/// The stem of one ebuild file name.
fn ebuild_stem(f: &str) -> (r: String)
    ensures
        r@ == spec_ebuild_stem(f@),
{
    proof {
        reveal_strlit(".ebuild");
    }
    let n = f.unicode_len();
    match rfind(f, ".ebuild") {
        Some(k) => {
            proof {
                crate::searchers::lemma_rfind_below_props(
                    f@,
                    ".ebuild"@,
                    f@.len() - ".ebuild"@.len() + 1,
                );
            }
            let head = f.substring_char(0, k);
            proof {
                assert(head@ =~= f@.take(k as int));
            }
            match rfind(head, ".ebuild") {
                Some(p) => {
                    proof {
                        crate::searchers::lemma_rfind_below_props(
                            head@,
                            ".ebuild"@,
                            head@.len() - ".ebuild"@.len() + 1,
                        );
                    }
                    let elen = ".ebuild".unicode_len();
                    let r = f.substring_char(p + elen, k).to_owned();
                    proof {
                        assert(r@ =~= f@.subrange(p + ".ebuild"@.len(), k as int));
                    }
                    r
                },
                None => head.to_owned(),
            }
        },
        None => f.to_owned(),
    }
}

/// Parses the package list of one category out of its directory
/// entries.
pub fn pkgs_from_ebuilds(names: &Vec<String>, prefix: Option<&String>) -> (r: Vec<Package>)
    ensures
        spec_pkg_views(r@) == spec_pkgs_from_ebuilds(names.deep_view(), spec_opt_view(prefix)),
{
    let n = names.len();
    let mut out: Vec<Package> = Vec::new();
    proof {
        assert(spec_pkg_views(out@) =~= Seq::<(Seq<char>, Seq<char>)>::empty());
    }
    let mut i: usize = 0;
    while i < n
        invariant
            i <= n,
            n == names@.len(),
            spec_pkg_views(out@) == spec_pkgs_from_ebuilds(
                names.deep_view().take(i as int),
                spec_opt_view(prefix),
            ),
        decreases n - i,
    {
        proof {
            reveal_strlit(".ebuild");
            assert(names.deep_view().take(i + 1).drop_last() =~= names.deep_view().take(i as int));
            assert(names.deep_view().take(i + 1).last() == names@[i as int]@);
        }
        let f = &names[i];
        let flen = f.as_str().unicode_len();
        let elen = ".ebuild".unicode_len();
        if flen >= elen && match_at(f.as_str(), ".ebuild", flen - elen) {
            let stem = ebuild_stem(f.as_str());
            match convert_to_pkg(stem.as_str()) {
                Some(p) => {
                    proof {
                        lemma_pkg_views_push(out@, p);
                    }
                    out.push(p);
                },
                None => {},
            }
            match prefix {
                Some(pre) => {
                    let mut combo = pre.clone();
                    combo.append(stem.as_str());
                    match convert_to_pkg(combo.as_str()) {
                        Some(p) => {
                            proof {
                                lemma_pkg_views_push(out@, p);
                            }
                            out.push(p);
                        },
                        None => {},
                    }
                },
                None => {},
            }
        }
        proof {
            assert(spec_pkg_views(out@) =~= spec_pkgs_from_ebuilds(
                names.deep_view().take(i + 1),
                spec_opt_view(prefix),
            ));
        }
        i = i + 1;
    }
    proof {
        assert(names.deep_view().take(n as int) =~= names.deep_view());
    }
    out
}

/// The renaming prefix the first matching table entry names.
pub open spec fn spec_prefix_first(ms: Seq<(String, String)>, c: Seq<char>) -> Option<Seq<char>>
    decreases ms.len(),
{
    if ms.len() == 0 {
        None
    } else if ms[0].0@ == c {
        Some(ms[0].1@)
    } else {
        spec_prefix_first(ms.drop_first(), c)
    }
}

/// Looks a category up in the renaming-prefix table.
fn prefix_for<'a>(map: &'a Vec<(String, String)>, category: &str) -> (r: Option<&'a String>)
    ensures
        r matches Some(p) ==> spec_prefix_first(map@, category@) == Some(p@),
        r is None ==> spec_prefix_first(map@, category@) is None,
{
    let n = map.len();
    let mut i: usize = 0;
    proof {
        assert(map@.skip(0) =~= map@);
    }
    while i < n
        invariant
            i <= n,
            n == map@.len(),
            spec_prefix_first(map@, category@) == spec_prefix_first(map@.skip(i as int), category@),
        decreases n - i,
    {
        proof {
            assert(map@.skip(i as int)[0] == map@[i as int]);
            assert(map@.skip(i as int).drop_first() =~= map@.skip(i + 1));
        }
        if str_eq(map[i].0.as_str(), category) {
            return Some(&map[i].1);
        }
        i = i + 1;
    }
    proof {
        assert(map@.skip(n as int).len() == 0);
    }
    None
}

/// The per-category package lists a tree walk yields, skipped
/// categories left out.
pub open spec fn spec_catpkgs(tree: Seq<(String, Vec<String>)>, pmap: Seq<(String, String)>) -> Seq<
    (Seq<char>, Seq<(Seq<char>, Seq<char>)>),
>
    decreases tree.len(),
{
    if tree.len() == 0 {
        Seq::empty()
    } else {
        let rest = spec_catpkgs(tree.drop_last(), pmap);
        let c = tree.last().0;
        let files = tree.last().1;
        if spec_skipped_category(c@) {
            rest
        } else {
            rest.push(
                (
                    c@,
                    spec_pkgs_from_ebuilds(files.deep_view(), spec_prefix_first(pmap, c@)),
                ),
            )
        }
    }
}

/// The views of a per-category package listing.
pub open spec fn spec_catpkg_views(out: Seq<(String, Vec<Package>)>) -> Seq<
    (Seq<char>, Seq<(Seq<char>, Seq<char>)>),
>
    decreases out.len(),
{
    if out.len() == 0 {
        Seq::empty()
    } else {
        spec_catpkg_views(out.drop_last()).push(
            (out.last().0@, spec_pkg_views(out.last().1@)),
        )
    }
}

/// Reads a whole package tree: every category that is not bookkeeping,
/// with the packages its ebuild files name, renaming prefixes applied.
pub fn all_catpkgs_from_tree(tree: &Vec<(String, Vec<String>)>, prefix_map: &Vec<(String, String)>)
    -> (r: Vec<(String, Vec<Package>)>)
    ensures
        spec_catpkg_views(r@) == spec_catpkgs(tree@, prefix_map@),
{
    let n = tree.len();
    let mut out: Vec<(String, Vec<Package>)> = Vec::new();
    proof {
        assert(spec_catpkg_views(out@) =~= Seq::<
            (Seq<char>, Seq<(Seq<char>, Seq<char>)>),
        >::empty());
    }
    let mut i: usize = 0;
    while i < n
        invariant
            i <= n,
            n == tree@.len(),
            spec_catpkg_views(out@) == spec_catpkgs(tree@.take(i as int), prefix_map@),
        decreases n - i,
    {
        proof {
            assert(tree@.take(i + 1).drop_last() =~= tree@.take(i as int));
            assert(tree@.take(i + 1).last() == tree@[i as int]);
        }
        let category = &tree[i].0;
        if !skipped_category(category.as_str()) {
            let prefix = prefix_for(prefix_map, category.as_str());
            let pkgs = pkgs_from_ebuilds(&tree[i].1, prefix);
            let ghost prev = out@;
            out.push((category.clone(), pkgs));
            proof {
                assert(out@.drop_last() =~= prev);
            }
        }
        proof {
            assert(spec_catpkg_views(out@) =~= spec_catpkgs(tree@.take(i + 1), prefix_map@));
        }
        i = i + 1;
    }
    proof {
        assert(tree@.take(n as int) =~= tree@);
    }
    out
}

pub trait OsInfo {
    fn get_os(&self) -> &Os;

    fn get_os_flavor(&self) -> Option<OsFlavor>;
}

pub trait OsPackages {
    /// The renaming-prefix table this adapter applies.
    spec fn spec_prefix_map(&self) -> Seq<(String, String)>;

    /// Reads a walked package tree into per-category package lists.
    fn get_all_catpkgs(&self, tree: &Vec<(String, Vec<String>)>) -> (r: Vec<
        (String, Vec<Package>),
    >)
        ensures
            spec_catpkg_views(r@) == spec_catpkgs(tree@, self.spec_prefix_map()),
    ;
}

pub trait OsAdapter: OsInfo + OsPackages {

}

/// The Portage family's adapter surface: where the package tree lives,
/// and the renaming-prefix table.
pub trait Portage {
    /// The package tree's directory.
    spec fn spec_pkg_dir(&self) -> Seq<char>;

    /// The renaming-prefix table.
    spec fn spec_prefix_table(&self) -> Seq<(String, String)>;

    fn get_pkg_dir(&self) -> (r: &String)
        ensures
            r@ == self.spec_pkg_dir(),
    ;

    fn set_pkg_dir(&mut self, pkg_dir: String)
        ensures
            final(self).spec_pkg_dir() == pkg_dir@,
            final(self).spec_prefix_table() == old(self).spec_prefix_table(),
    ;

    fn get_pkg_prefix_adapter(&self, category: &str) -> (r: Option<&String>)
        ensures
            r matches Some(p) ==> spec_prefix_first(self.spec_prefix_table(), category@) == Some(
                p@,
            ),
            r is None ==> spec_prefix_first(self.spec_prefix_table(), category@) is None,
    ;

    /// Switches the table that renames package-manager names to the
    /// reference data's product names on or off.
    fn set_pkg_adapter(&mut self, use_nvd_pkg_adapter: bool)
        ensures
            final(self).spec_pkg_dir() == old(self).spec_pkg_dir(),
            !use_nvd_pkg_adapter ==> final(self).spec_prefix_table() == old(self).spec_prefix_table(),
            use_nvd_pkg_adapter ==> final(self).spec_prefix_table().len() == 1
                && final(self).spec_prefix_table()[0].0@ == "dev-libs"@
                && final(self).spec_prefix_table()[0].1@ == "lib"@,
    ;
}

pub struct Funtoo {
    pub os: Os,
    pub flavor: LinuxDistro,
    pub pkg_dir: String,
    pub pkg_prefix_adapter: Vec<(String, String)>,
}

impl Funtoo {
    pub fn new() -> (r: Funtoo)
        ensures
            r.os == Os::GnuLinux,
            r.flavor == LinuxDistro::Funtoo,
            r.pkg_dir@ == "/var/db/pkg/"@,
            r.pkg_prefix_adapter@.len() == 0,
    {
        Funtoo {
            os: Os::GnuLinux,
            flavor: LinuxDistro::Funtoo,
            pkg_dir: String::from_str("/var/db/pkg/"),
            pkg_prefix_adapter: Vec::new(),
        }
    }
}

impl OsInfo for Funtoo {
    fn get_os(&self) -> &Os {
        &self.os
    }

    fn get_os_flavor(&self) -> Option<OsFlavor> {
        Some(OsFlavor::LinuxDistro(self.flavor))
    }
}

impl OsPackages for Funtoo {
    open spec fn spec_prefix_map(&self) -> Seq<(String, String)> {
        self.pkg_prefix_adapter@
    }

    fn get_all_catpkgs(&self, tree: &Vec<(String, Vec<String>)>) -> Vec<(String, Vec<Package>)> {
        all_catpkgs_from_tree(tree, &self.pkg_prefix_adapter)
    }
}

impl OsAdapter for Funtoo {

}

impl Portage for Funtoo {
    open spec fn spec_pkg_dir(&self) -> Seq<char> {
        self.pkg_dir@
    }

    open spec fn spec_prefix_table(&self) -> Seq<(String, String)> {
        self.pkg_prefix_adapter@
    }

    fn get_pkg_dir(&self) -> &String {
        &self.pkg_dir
    }

    fn set_pkg_dir(&mut self, pkg_dir: String) {
        self.pkg_dir = pkg_dir;
    }

    fn get_pkg_prefix_adapter(&self, category: &str) -> Option<&String> {
        prefix_for(&self.pkg_prefix_adapter, category)
    }

    fn set_pkg_adapter(&mut self, use_nvd_pkg_adapter: bool) {
        if use_nvd_pkg_adapter {
            let mut m: Vec<(String, String)> = Vec::new();
            m.push((String::from_str("dev-libs"), String::from_str("lib")));
            self.pkg_prefix_adapter = m;
        }
    }
}

pub struct Gentoo {
    pub os: Os,
    pub flavor: LinuxDistro,
    pub pkg_dir: String,
    pub pkg_prefix_adapter: Vec<(String, String)>,
}

impl Gentoo {
    pub fn new() -> (r: Gentoo)
        ensures
            r.os == Os::GnuLinux,
            r.flavor == LinuxDistro::Gentoo,
            r.pkg_dir@ == "/var/db/pkg/"@,
            r.pkg_prefix_adapter@.len() == 0,
    {
        Gentoo {
            os: Os::GnuLinux,
            flavor: LinuxDistro::Gentoo,
            pkg_dir: String::from_str("/var/db/pkg/"),
            pkg_prefix_adapter: Vec::new(),
        }
    }
}

impl OsInfo for Gentoo {
    fn get_os(&self) -> &Os {
        &self.os
    }

    fn get_os_flavor(&self) -> Option<OsFlavor> {
        Some(OsFlavor::LinuxDistro(self.flavor))
    }
}

impl OsPackages for Gentoo {
    open spec fn spec_prefix_map(&self) -> Seq<(String, String)> {
        self.pkg_prefix_adapter@
    }

    fn get_all_catpkgs(&self, tree: &Vec<(String, Vec<String>)>) -> Vec<(String, Vec<Package>)> {
        all_catpkgs_from_tree(tree, &self.pkg_prefix_adapter)
    }
}

impl OsAdapter for Gentoo {

}

impl Portage for Gentoo {
    open spec fn spec_pkg_dir(&self) -> Seq<char> {
        self.pkg_dir@
    }

    open spec fn spec_prefix_table(&self) -> Seq<(String, String)> {
        self.pkg_prefix_adapter@
    }

    fn get_pkg_dir(&self) -> &String {
        &self.pkg_dir
    }

    fn set_pkg_dir(&mut self, pkg_dir: String) {
        self.pkg_dir = pkg_dir;
    }

    fn get_pkg_prefix_adapter(&self, category: &str) -> Option<&String> {
        prefix_for(&self.pkg_prefix_adapter, category)
    }

    fn set_pkg_adapter(&mut self, use_nvd_pkg_adapter: bool) {
        if use_nvd_pkg_adapter {
            let mut m: Vec<(String, String)> = Vec::new();
            m.push((String::from_str("dev-libs"), String::from_str("lib")));
            self.pkg_prefix_adapter = m;
        }
    }
}

} // verus!
