//! Settings of the two report styles: a table with links, and prose.

use crate::crate_diff_info::{CrateDiffInfo, DiffView};
use crate::text::starts_with;
use crate::version::{version_order, version_text, Version, VersionView};
use std::cmp::Ordering;
use vstd::prelude::*;
use vstd::string::*;

verus! {

/// A repository on GitHub, where commits and comparisons have links.
pub open spec fn is_github(repository: Option<Seq<char>>) -> bool {
    match repository {
        Some(r) => "https://github.com/"@.len() <= r.len() && r.take(
            "https://github.com/"@.len() as int,
        ) == "https://github.com/"@,
        None => false,
    }
}

/// The first seven characters of a commit hash (all of a shorter one).
pub open spec fn short_hash(h: Seq<char>) -> Seq<char> {
    if h.len() > 7 {
        h.take(7)
    } else {
        h
    }
}

/// The text of an optional version; empty for an absent one.
pub open spec fn opt_version_text(v: Option<VersionView>) -> Seq<char> {
    match v {
        Some(v) => version_text(v),
        None => Seq::empty(),
    }
}

/// A present text, or the fallback.
pub open spec fn text_or(t: Option<Seq<char>>, fallback: Seq<char>) -> Seq<char> {
    match t {
        Some(t) => t,
        None => fallback,
    }
}

/// The diff.rs page comparing two versions of a crate.
pub open spec fn diff_rs_url(name: Seq<char>, from: Seq<char>, to: Seq<char>) -> Seq<char> {
    "https://diff.rs/"@ + name + "/"@ + from + "/"@ + to
}

/// The link that the table shows for a diff: a diff.rs page in
/// comparison-link mode, else a GitHub comparison or commit where the
/// hashes are known, else the repository (or a diff.rs page for a crate
/// that was only added or removed).
pub open spec fn simple_link(d: DiffView, diff_rs: bool) -> Seq<char> {
    let from = opt_version_text(d.from_version);
    let to = opt_version_text(d.to_version);
    if d.from_version is Some && d.to_version is Some {
        if diff_rs {
            diff_rs_url(d.name, from, to)
        } else if is_github(d.repository) && d.from_hash is Some && d.to_hash is Some {
            d.repository.unwrap() + "/compare/"@ + short_hash(d.from_hash.unwrap()) + "..."@
                + short_hash(d.to_hash.unwrap())
        } else {
            text_or(d.repository, "<unknown-repository>"@)
        }
    } else if d.from_version is Some {
        if !diff_rs && is_github(d.repository) && d.from_hash is Some {
            d.repository.unwrap() + "/commit/"@ + d.from_hash.unwrap()
        } else {
            diff_rs_url(d.name, from, from)
        }
    } else if d.to_version is Some {
        if !diff_rs && is_github(d.repository) && d.to_hash is Some {
            d.repository.unwrap() + "/commit/"@ + d.to_hash.unwrap()
        } else {
            diff_rs_url(d.name, to, to)
        }
    } else {
        text_or(d.repository, "<unknown>"@)
    }
}

/// `s` followed by spaces up to `width` characters.
pub open spec fn padded(s: Seq<char>, width: nat) -> Seq<char> {
    if s.len() < width {
        s + Seq::new((width - s.len()) as nat, |i: int| ' ')
    } else {
        s
    }
}

/// One row of the table: the marker, the name and both versions padded to
/// their columns, and the link.
pub open spec fn simple_row(
    d: DiffView,
    prefix: Seq<char>,
    name_width: nat,
    from_width: nat,
    to_width: nat,
    diff_rs: bool,
) -> Seq<char> {
    prefix + " "@ + padded(d.name, name_width) + " "@ + padded(
        opt_version_text(d.from_version),
        from_width,
    ) + " "@ + padded(opt_version_text(d.to_version), to_width) + " "@ + simple_link(d, diff_rs)
}

fn append_padded(out: &mut String, s: &str, width: usize)
    ensures
        final(out)@ == old(out)@ + padded(s@, width as nat),
{
    proof {
        reveal_strlit(" ");
    }
    let ghost start = out@;
    out.append(s);
    let n = s.unicode_len();
    let mut k: usize = n;
    assert(start + s@ + Seq::new((k - n) as nat, |i: int| ' ') =~= start + s@);
    while k < width
        invariant
            n == s@.len(),
            n <= k,
            k == n || k <= width,
            out@ == start + s@ + Seq::new((k - n) as nat, |i: int| ' '),
            " "@ == seq![' '],
        decreases width - k,
    {
        out.append(" ");
        assert(out@ =~= start + s@ + Seq::new((k + 1 - n) as nat, |i: int| ' '));
        k = k + 1;
    }
    if n < width {
        assert(k == width);
        assert(padded(s@, width as nat) == s@ + Seq::new((width - n) as nat, |i: int| ' '));
    } else {
        assert(k == n);
        assert(Seq::new((k - n) as nat, |i: int| ' ') =~= Seq::<char>::empty());
    }
    assert(out@ =~= start + padded(s@, width as nat));
}

fn version_or_empty(v: &Option<Version>) -> (r: String)
    ensures
        r@ == opt_version_text(crate::crate_diff_info::version_view(*v)),
{
    match v {
        Some(v) => v.text(),
        None => String::new(),
    }
}

fn github_repository(repository: &Option<String>) -> (r: Option<&str>)
    ensures
        r is Some <==> is_github(crate::crate_diff_info::text_view(*repository)),
        r matches Some(t) ==> crate::crate_diff_info::text_view(*repository) == Some(t@),
{
    match repository {
        Some(r) => if starts_with(r.as_str(), "https://github.com/") {
            Some(r.as_str())
        } else {
            None
        },
        None => None,
    }
}

fn short(h: &str) -> (r: &str)
    ensures
        r@ == short_hash(h@),
{
    let n = h.unicode_len();
    if n > 7 {
        h.substring_char(0, 7)
    } else {
        h
    }
}

fn diff_rs_link(name: &str, from: &str, to: &str) -> (r: String)
    ensures
        r@ == diff_rs_url(name@, from@, to@),
{
    let mut s = String::from_str("https://diff.rs/");
    s.append(name);
    s.append("/");
    s.append(from);
    s.append("/");
    s.append(to);
    s
}

fn text_or_else(t: &Option<String>, fallback: &str) -> (r: String)
    ensures
        r@ == text_or(crate::crate_diff_info::text_view(*t), fallback@),
{
    match t {
        Some(t) => t.clone(),
        None => String::from_str(fallback),
    }
}

/// `n` times two spaces.
pub open spec fn indent_text(n: nat) -> Seq<char> {
    Seq::new(2 * n, |i: int| ' ')
}

/// A line of text, ended by a newline.
pub open spec fn line(s: Seq<char>) -> Seq<char> {
    s + "\n"@
}

/// Where the repository is on GitHub and the hash known, the commit's
/// page; else the repository and the hash as they are.
pub open spec fn commit_link(repository: Option<Seq<char>>, hash: Option<Seq<char>>) -> Seq<char> {
    if is_github(repository) && hash is Some {
        repository.unwrap() + "/commit/"@ + hash.unwrap()
    } else {
        text_or(repository, "<unknown-repository>"@) + " "@ + text_or(hash, "<unknown-commit>"@)
    }
}

/// An indented line: a label and a text.
pub open spec fn label_line(ind: Seq<char>, label: Seq<char>, x: Seq<char>) -> Seq<char> {
    line(ind + label + x)
}

/// An indented line: a label, a version and what goes with it.
pub open spec fn pair_line(ind: Seq<char>, label: Seq<char>, v: Seq<char>, x: Seq<char>) -> Seq<
    char,
> {
    line(ind + label + v + " "@ + x)
}

/// A commit's page in a repository.
pub open spec fn commit_url(repository: Seq<char>, hash: Seq<char>) -> Seq<char> {
    repository + "/commit/"@ + hash
}

/// A comparison of two commits in a repository.
pub open spec fn compare_url(repository: Seq<char>, from: Seq<char>, to: Seq<char>) -> Seq<char> {
    repository + "/compare/"@ + short_hash(from) + "..."@ + short_hash(to)
}

/// The diff.rs line of comparison-link mode, or nothing.
pub open spec fn diff_rs_line(diff_rs: bool, ind: Seq<char>, name: Seq<char>, from: Seq<char>, to: Seq<char>) -> Seq<char> {
    if diff_rs {
        label_line(ind, "  Diff: "@, diff_rs_url(name, from, to))
    } else {
        Seq::empty()
    }
}

/// The lines under an updated crate: both versions with their commits,
/// and a comparison where the repository is on GitHub.
pub open spec fn update_details(d: DiffView, ind: Seq<char>) -> Seq<char> {
    let from = opt_version_text(d.from_version);
    let to = opt_version_text(d.to_version);
    if is_github(d.repository) && d.from_hash is Some && d.to_hash is Some {
        let repository = d.repository.unwrap();
        pair_line(ind, "  From: "@, from, commit_url(repository, d.from_hash.unwrap())) + pair_line(
            ind,
            "  To:   "@,
            to,
            commit_url(repository, d.to_hash.unwrap()),
        ) + label_line(
            ind,
            "  Diff: "@,
            compare_url(repository, d.from_hash.unwrap(), d.to_hash.unwrap()),
        )
    } else {
        pair_line(ind, "  From: "@, from, text_or(d.from_hash, "<unknown-commit>"@)) + pair_line(
            ind,
            "  To:   "@,
            to,
            text_or(d.to_hash, "<unknown-commit>"@),
        ) + label_line(ind, "  Repo: "@, text_or(d.repository, "<unknown-repository>"@))
    }
}

/// Whether the change is an upgrade or a downgrade.
pub open spec fn change_word(from: VersionView, to: VersionView) -> Seq<char> {
    if version_order(from, to) == Ordering::Less {
        "upgraded"@
    } else {
        "downgraded"@
    }
}

/// The prose that tells of one diff, indented by `indent` steps: whether
/// the crate was upgraded or downgraded (or added, or removed), its
/// versions with their commits, and the links that are known.
pub open spec fn verbose_text(d: DiffView, indent: nat, diff_rs: bool) -> Seq<char> {
    let ind = indent_text(indent);
    let header = ind + d.name + ":"@;
    let from = opt_version_text(d.from_version);
    let to = opt_version_text(d.to_version);
    if d.from_version is Some && d.to_version is Some {
        line(header + change_word(d.from_version.unwrap(), d.to_version.unwrap())) + update_details(d, ind)
            + diff_rs_line(diff_rs, ind, d.name, from, to)
    } else if d.from_version is Some {
        line(header) + pair_line(ind, "  From: "@, from, text_or(d.from_hash, "<unknown-commit>"@))
            + label_line(ind, "  Repo: "@, commit_link(d.repository, d.from_hash)) + diff_rs_line(
            diff_rs,
            ind,
            d.name,
            from,
            from,
        )
    } else if d.to_version is Some {
        line(header) + pair_line(ind, "  To:   "@, to, text_or(d.to_hash, "<unknown-commit>"@))
            + label_line(ind, "  Repo: "@, commit_link(d.repository, d.to_hash)) + diff_rs_line(
            diff_rs,
            ind,
            d.name,
            to,
            to,
        )
    } else {
        line(header) + label_line(ind, "  Repo: "@, text_or(d.repository, "<unknown-repository>"@))
    }
}

fn make_label_line(ind: &str, label: &str, x: &str) -> (r: String)
    ensures
        r@ == label_line(ind@, label@, x@),
{
    let mut s = String::from_str(ind);
    s.append(label);
    s.append(x);
    s.append("\n");
    s
}

fn make_pair_line(ind: &str, label: &str, v: &str, x: &str) -> (r: String)
    ensures
        r@ == pair_line(ind@, label@, v@, x@),
{
    let mut s = String::from_str(ind);
    s.append(label);
    s.append(v);
    s.append(" ");
    s.append(x);
    s.append("\n");
    s
}

fn make_commit_url(repository: &str, hash: &str) -> (r: String)
    ensures
        r@ == commit_url(repository@, hash@),
{
    let mut s = String::from_str(repository);
    s.append("/commit/");
    s.append(hash);
    s
}

fn make_compare_url(repository: &str, from: &str, to: &str) -> (r: String)
    ensures
        r@ == compare_url(repository@, from@, to@),
{
    let mut s = String::from_str(repository);
    s.append("/compare/");
    s.append(short(from));
    s.append("...");
    s.append(short(to));
    s
}

fn make_diff_rs_line(diff_rs: bool, ind: &str, name: &str, from: &str, to: &str) -> (r: String)
    ensures
        r@ == diff_rs_line(diff_rs, ind@, name@, from@, to@),
{
    if diff_rs {
        make_label_line(ind, "  Diff: ", diff_rs_link(name, from, to).as_str())
    } else {
        String::new()
    }
}

fn make_update_details(diff: &CrateDiffInfo, ind: &str, from: &str, to: &str) -> (r: String)
    requires
        from@ == opt_version_text(diff@.from_version),
        to@ == opt_version_text(diff@.to_version),
    ensures
        r@ == update_details(diff@, ind@),
{
    match (github_repository(&diff.repository), &diff.from_hash, &diff.to_hash) {
        (Some(repository), Some(fh), Some(th)) => {
            let mut s = make_pair_line(ind, "  From: ", from, make_commit_url(repository, fh.as_str()).as_str());
            s.append(make_pair_line(ind, "  To:   ", to, make_commit_url(repository, th.as_str()).as_str()).as_str());
            s.append(make_label_line(ind, "  Diff: ", make_compare_url(repository, fh.as_str(), th.as_str()).as_str()).as_str());
            s
        },
        _ => {
            let mut s = make_pair_line(ind, "  From: ", from, text_or_else(&diff.from_hash, "<unknown-commit>").as_str());
            s.append(make_pair_line(ind, "  To:   ", to, text_or_else(&diff.to_hash, "<unknown-commit>").as_str()).as_str());
            s.append(make_label_line(ind, "  Repo: ", text_or_else(&diff.repository, "<unknown-repository>").as_str()).as_str());
            s
        },
    }
}

fn indentation(indent: usize) -> (r: String)
    ensures
        r@ == indent_text(indent as nat),
{
    proof {
        reveal_strlit("  ");
    }
    let mut s = String::new();
    let mut k: usize = 0;
    while k < indent
        invariant
            k <= indent,
            s@ == indent_text(k as nat),
            "  "@ == seq![' ', ' '],
        decreases indent - k,
    {
        s.append("  ");
        assert(s@ =~= indent_text((k + 1) as nat));
        k = k + 1;
    }
    s
}

fn commit_link_text(repository: &Option<String>, hash: &Option<String>) -> (r: String)
    ensures
        r@ == commit_link(crate::crate_diff_info::text_view(*repository), crate::crate_diff_info::text_view(*hash)),
{
    match (github_repository(repository), hash) {
        (Some(repository), Some(hash)) => {
            let mut s = String::from_str(repository);
            s.append("/commit/");
            s.append(hash.as_str());
            s
        },
        _ => {
            let mut s = text_or_else(repository, "<unknown-repository>");
            s.append(" ");
            s.append(text_or_else(hash, "<unknown-commit>").as_str());
            s
        },
    }
}

/// Settings of the table style, and the column widths it has found.
pub struct SimpleReportPrinter {
    /// Group nested changes under their direct dependency
    pub group: bool,
    /// Comparison-link mode
    pub diff_rs: bool,
    pub max_name_len: usize,
    pub max_from_ver_len: usize,
    pub max_to_ver_len: usize,
}

impl SimpleReportPrinter {
    /// A printer with every column width zero.
    pub fn new(group: bool, diff_rs: bool) -> (r: SimpleReportPrinter)
        ensures
            r.group == group,
            r.diff_rs == diff_rs,
            r.max_name_len == 0,
            r.max_from_ver_len == 0,
            r.max_to_ver_len == 0,
    {
        SimpleReportPrinter { group, diff_rs, max_name_len: 0, max_from_ver_len: 0, max_to_ver_len: 0 }
    }

    /// The link of one table row.
    pub fn crate_link(&self, diff: &CrateDiffInfo) -> (r: String)
        ensures
            r@ == simple_link(diff@, self.diff_rs),
    {
        let from = version_or_empty(&diff.from_version);
        let to = version_or_empty(&diff.to_version);
        let github = github_repository(&diff.repository);
        match (&diff.from_version, &diff.to_version) {
            (Some(_), Some(_)) => {
                if self.diff_rs {
                    diff_rs_link(diff.name.as_str(), from.as_str(), to.as_str())
                } else {
                    match (github, &diff.from_hash, &diff.to_hash) {
                        (Some(repository), Some(from_hash), Some(to_hash)) => {
                            let mut s = String::from_str(repository);
                            s.append("/compare/");
                            s.append(short(from_hash.as_str()));
                            s.append("...");
                            s.append(short(to_hash.as_str()));
                            s
                        },
                        _ => text_or_else(&diff.repository, "<unknown-repository>"),
                    }
                }
            },
            (Some(_), None) => match (self.diff_rs, github, &diff.from_hash) {
                (false, Some(repository), Some(from_hash)) => {
                    let mut s = String::from_str(repository);
                    s.append("/commit/");
                    s.append(from_hash.as_str());
                    s
                },
                _ => diff_rs_link(diff.name.as_str(), from.as_str(), from.as_str()),
            },
            (None, Some(_)) => match (self.diff_rs, github, &diff.to_hash) {
                (false, Some(repository), Some(to_hash)) => {
                    let mut s = String::from_str(repository);
                    s.append("/commit/");
                    s.append(to_hash.as_str());
                    s
                },
                _ => diff_rs_link(diff.name.as_str(), to.as_str(), to.as_str()),
            },
            (None, None) => text_or_else(&diff.repository, "<unknown>"),
        }
    }

    /// One table row for a diff, marked with `prefix`, padded to the
    /// column widths found so far.
    pub fn crate_row(&self, diff: &CrateDiffInfo, prefix: &str) -> (r: String)
        ensures
            r@ == simple_row(
                diff@,
                prefix@,
                self.max_name_len as nat,
                self.max_from_ver_len as nat,
                self.max_to_ver_len as nat,
                self.diff_rs,
            ),
    {
        let from = version_or_empty(&diff.from_version);
        let to = version_or_empty(&diff.to_version);
        let mut row = String::from_str(prefix);
        row.append(" ");
        append_padded(&mut row, diff.name.as_str(), self.max_name_len);
        row.append(" ");
        append_padded(&mut row, from.as_str(), self.max_from_ver_len);
        row.append(" ");
        append_padded(&mut row, to.as_str(), self.max_to_ver_len);
        row.append(" ");
        row.append(self.crate_link(diff).as_str());
        row
    }
}

/// Settings of the prose style.
pub struct VerboseReportPrinter {
    /// Group nested changes under their direct dependency
    pub group: bool,
    /// Comparison-link mode
    pub diff_rs: bool,
}

impl VerboseReportPrinter {
    pub fn new(group: bool, diff_rs: bool) -> (r: VerboseReportPrinter)
        ensures
            r.group == group,
            r.diff_rs == diff_rs,
    {
        VerboseReportPrinter { group, diff_rs }
    }

    /// The prose for one diff, indented by `indent` steps of two spaces.
    pub fn crate_text(&self, diff: &CrateDiffInfo, indent: usize) -> (r: String)
        ensures
            r@ == verbose_text(diff@, indent as nat, self.diff_rs),
    {
        let ind = indentation(indent);
        let ind = ind.as_str();
        let from = version_or_empty(&diff.from_version);
        let to = version_or_empty(&diff.to_version);
        let mut out = String::from_str(ind);
        out.append(diff.name.as_str());
        out.append(":");
        match (&diff.from_version, &diff.to_version) {
            (Some(f), Some(t)) => {
                match f.compare(t) {
                    Ordering::Less => out.append("upgraded"),
                    _ => out.append("downgraded"),
                }
                out.append("\n");
                out.append(make_update_details(diff, ind, from.as_str(), to.as_str()).as_str());
                out.append(make_diff_rs_line(self.diff_rs, ind, diff.name.as_str(), from.as_str(), to.as_str()).as_str());
            },
            (Some(_), None) => {
                out.append("\n");
                out.append(make_pair_line(ind, "  From: ", from.as_str(), text_or_else(&diff.from_hash, "<unknown-commit>").as_str()).as_str());
                out.append(make_label_line(ind, "  Repo: ", commit_link_text(&diff.repository, &diff.from_hash).as_str()).as_str());
                out.append(make_diff_rs_line(self.diff_rs, ind, diff.name.as_str(), from.as_str(), from.as_str()).as_str());
            },
            (None, Some(_)) => {
                out.append("\n");
                out.append(make_pair_line(ind, "  To:   ", to.as_str(), text_or_else(&diff.to_hash, "<unknown-commit>").as_str()).as_str());
                out.append(make_label_line(ind, "  Repo: ", commit_link_text(&diff.repository, &diff.to_hash).as_str()).as_str());
                out.append(make_diff_rs_line(self.diff_rs, ind, diff.name.as_str(), to.as_str(), to.as_str()).as_str());
            },
            (None, None) => {
                out.append("\n");
                out.append(make_label_line(ind, "  Repo: ", text_or_else(&diff.repository, "<unknown-repository>").as_str()).as_str());
            },
        }
        out
    }
}

} // verus!
