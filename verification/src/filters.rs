//! The rule set and the collector: templates and the default configuration,
//! per-file classification through the layered rules, and the accumulation
//! of the collection result with its extension statistics.
use vstd::prelude::*;
use vstd::relations::sorted_by;

use crate::globs::{excluded_by, matches_exclude};
use crate::order::{insert_sorted, str_le_order};
use crate::text::{
    eq_lower, ext_of, extension_of, lower_seq, norm_entry, str_eq, strip_dots_front, to_lower,
    views_of,
};

verus! {

/// The three filtering rules of one invocation: an optional extension
/// allowlist (absent means every extension is allowed), directory basenames
/// pruned during traversal, and glob patterns excluding files by basename.
/// Built once, then read-only for the whole traversal.
#[derive(Clone, Debug)]
pub struct RuleSet {
    pub allowed_extensions: Option<Vec<String>>,
    pub forbidden_dirs: Vec<String>,
    pub exclude_patterns: Vec<String>,
}

/// The mathematical content of a rule set.
#[verifier::ext_equal]
pub struct RuleSetView {
    pub allowed_extensions: Option<Seq<Seq<char>>>,
    pub forbidden_dirs: Seq<Seq<char>>,
    pub exclude_patterns: Seq<Seq<char>>,
}

impl View for RuleSet {
    type V = RuleSetView;

    open spec fn view(&self) -> RuleSetView {
        RuleSetView {
            allowed_extensions: match self.allowed_extensions {
                Some(v) => Some(views_of(v@)),
                None => None,
            },
            forbidden_dirs: views_of(self.forbidden_dirs@),
            exclude_patterns: views_of(self.exclude_patterns@),
        }
    }
}

/// The rules of the `cs` template.
pub open spec fn cs_rules() -> RuleSetView {
    RuleSetView {
        allowed_extensions: Some(seq![".cs"@, ".xaml"@, ".csproj"@, ".props"@, ".targets"@]),
        forbidden_dirs: seq!["bin"@, "obj"@, "packages"@, ".vs"@],
        exclude_patterns: seq![
            "*.user"@,
            "*.suo"@,
            "AssemblyInfo.cs"@,
            "*.g.cs"@,
            "*.i.cs"@,
            "TemporaryGeneratedFile_*.cs"@,
        ],
    }
}

/// The rules of the `wpf` template.
pub open spec fn wpf_rules() -> RuleSetView {
    RuleSetView {
        allowed_extensions: Some(
            seq![".cs"@, ".xaml"@, ".csproj"@, ".props"@, ".targets"@, ".config"@],
        ),
        forbidden_dirs: seq!["bin"@, "obj"@, ".vs"@],
        exclude_patterns: seq!["*.user"@, "*.suo"@],
    }
}

/// The rules of the `rb` template.
pub open spec fn rb_rules() -> RuleSetView {
    RuleSetView {
        allowed_extensions: Some(seq![".rb"@, ".gemfile"@, "Gemfile"@, "Rakefile"@, ".rake"@]),
        forbidden_dirs: seq![".bundle"@, "tmp"@, "log"@],
        exclude_patterns: seq!["*.gem"@],
    }
}

/// The rules of the `rails` template.
pub open spec fn rails_rules() -> RuleSetView {
    RuleSetView {
        allowed_extensions: Some(
            seq![
                ".rb"@,
                ".rake"@,
                ".erb"@,
                ".haml"@,
                ".slim"@,
                ".yml"@,
                ".yaml"@,
                ".js"@,
                ".ts"@,
                ".css"@,
                ".scss"@,
                ".json"@,
            ],
        ),
        forbidden_dirs: seq!["tmp"@, "log"@, "public/assets"@, ".bundle"@],
        exclude_patterns: seq!["*.sqlite3"@, "*.log"@],
    }
}

/// The built-in default rules: no extension allowlist, a denylist of common
/// build, VCS and dependency directories, and exclusion patterns for common
/// binary, lock and cache files.
pub open spec fn default_rules() -> RuleSetView {
    RuleSetView {
        allowed_extensions: None,
        forbidden_dirs: seq![
            "bin"@,
            "obj"@,
            ".git"@,
            ".vs"@,
            ".idea"@,
            "node_modules"@,
            "tmp"@,
            "log"@,
            "packages"@,
            ".bundle"@,
        ],
        exclude_patterns: seq![
            "*.tmp"@,
            "*.cache"@,
            "*.suo"@,
            "*.user"@,
            "*.xlsx"@,
            "*.xls"@,
            "*.pdf"@,
            "*.jpg"@,
            "*.jpeg"@,
            "*.png"@,
            "*.gif"@,
            "*.ico"@,
            "*.dll"@,
            "*.exe"@,
            "*.so"@,
            "*.dylib"@,
            "*.bin"@,
            ".DS_Store"@,
            "*.gem"@,
            "*.log"@,
        ],
    }
}

/// The rule set belonging to a template name, absent for an unknown name.
pub open spec fn template_rules(name: Seq<char>) -> Option<RuleSetView> {
    if name == "cs"@ {
        Some(cs_rules())
    } else if name == "wpf"@ {
        Some(wpf_rules())
    } else if name == "rb"@ {
        Some(rb_rules())
    } else if name == "rails"@ {
        Some(rails_rules())
    } else {
        None
    }
}

fn build_cs() -> (r: RuleSet)
    ensures
        r@ == cs_rules(),
{
    let exts: Vec<String> = vec![
        String::from_str(".cs"),
        String::from_str(".xaml"),
        String::from_str(".csproj"),
        String::from_str(".props"),
        String::from_str(".targets"),
    ];
    let dirs: Vec<String> = vec![
        String::from_str("bin"),
        String::from_str("obj"),
        String::from_str("packages"),
        String::from_str(".vs"),
    ];
    let pats: Vec<String> = vec![
        String::from_str("*.user"),
        String::from_str("*.suo"),
        String::from_str("AssemblyInfo.cs"),
        String::from_str("*.g.cs"),
        String::from_str("*.i.cs"),
        String::from_str("TemporaryGeneratedFile_*.cs"),
    ];
    let r = RuleSet { allowed_extensions: Some(exts), forbidden_dirs: dirs, exclude_patterns: pats };
    proof {
        assert(r@.allowed_extensions.unwrap() =~= cs_rules().allowed_extensions.unwrap());
        assert(r@.forbidden_dirs =~= cs_rules().forbidden_dirs);
        assert(r@.exclude_patterns =~= cs_rules().exclude_patterns);
        assert(r@ =~= cs_rules());
    }
    r
}

fn build_wpf() -> (r: RuleSet)
    ensures
        r@ == wpf_rules(),
{
    let exts: Vec<String> = vec![
        String::from_str(".cs"),
        String::from_str(".xaml"),
        String::from_str(".csproj"),
        String::from_str(".props"),
        String::from_str(".targets"),
        String::from_str(".config"),
    ];
    let dirs: Vec<String> = vec![
        String::from_str("bin"),
        String::from_str("obj"),
        String::from_str(".vs"),
    ];
    let pats: Vec<String> = vec![String::from_str("*.user"), String::from_str("*.suo")];
    let r = RuleSet { allowed_extensions: Some(exts), forbidden_dirs: dirs, exclude_patterns: pats };
    proof {
        assert(r@.allowed_extensions.unwrap() =~= wpf_rules().allowed_extensions.unwrap());
        assert(r@.forbidden_dirs =~= wpf_rules().forbidden_dirs);
        assert(r@.exclude_patterns =~= wpf_rules().exclude_patterns);
        assert(r@ =~= wpf_rules());
    }
    r
}

fn build_rb() -> (r: RuleSet)
    ensures
        r@ == rb_rules(),
{
    let exts: Vec<String> = vec![
        String::from_str(".rb"),
        String::from_str(".gemfile"),
        String::from_str("Gemfile"),
        String::from_str("Rakefile"),
        String::from_str(".rake"),
    ];
    let dirs: Vec<String> = vec![
        String::from_str(".bundle"),
        String::from_str("tmp"),
        String::from_str("log"),
    ];
    let pats: Vec<String> = vec![String::from_str("*.gem")];
    let r = RuleSet { allowed_extensions: Some(exts), forbidden_dirs: dirs, exclude_patterns: pats };
    proof {
        assert(r@.allowed_extensions.unwrap() =~= rb_rules().allowed_extensions.unwrap());
        assert(r@.forbidden_dirs =~= rb_rules().forbidden_dirs);
        assert(r@.exclude_patterns =~= rb_rules().exclude_patterns);
        assert(r@ =~= rb_rules());
    }
    r
}

fn build_rails() -> (r: RuleSet)
    ensures
        r@ == rails_rules(),
{
    let exts: Vec<String> = vec![
        String::from_str(".rb"),
        String::from_str(".rake"),
        String::from_str(".erb"),
        String::from_str(".haml"),
        String::from_str(".slim"),
        String::from_str(".yml"),
        String::from_str(".yaml"),
        String::from_str(".js"),
        String::from_str(".ts"),
        String::from_str(".css"),
        String::from_str(".scss"),
        String::from_str(".json"),
    ];
    let dirs: Vec<String> = vec![
        String::from_str("tmp"),
        String::from_str("log"),
        String::from_str("public/assets"),
        String::from_str(".bundle"),
    ];
    let pats: Vec<String> = vec![String::from_str("*.sqlite3"), String::from_str("*.log")];
    let r = RuleSet { allowed_extensions: Some(exts), forbidden_dirs: dirs, exclude_patterns: pats };
    proof {
        assert(r@.allowed_extensions.unwrap() =~= rails_rules().allowed_extensions.unwrap());
        assert(r@.forbidden_dirs =~= rails_rules().forbidden_dirs);
        assert(r@.exclude_patterns =~= rails_rules().exclude_patterns);
        assert(r@ =~= rails_rules());
    }
    r
}

/// The rule set of a built-in template, or nothing for an unknown name.
pub fn get_template(name: &str) -> (r: Option<RuleSet>)
    ensures
        (match r {
            Some(rs) => template_rules(name@) == Some(rs@),
            None => template_rules(name@) is None,
        }),
{
    if str_eq(name, "cs") {
        Some(build_cs())
    } else if str_eq(name, "wpf") {
        Some(build_wpf())
    } else if str_eq(name, "rb") {
        Some(build_rb())
    } else if str_eq(name, "rails") {
        Some(build_rails())
    } else {
        None
    }
}

/// The built-in default rule set, used when no template is named.
pub fn get_default_config() -> (r: RuleSet)
    ensures
        r@ == default_rules(),
{
    let dirs: Vec<String> = vec![
        String::from_str("bin"),
        String::from_str("obj"),
        String::from_str(".git"),
        String::from_str(".vs"),
        String::from_str(".idea"),
        String::from_str("node_modules"),
        String::from_str("tmp"),
        String::from_str("log"),
        String::from_str("packages"),
        String::from_str(".bundle"),
    ];
    let pats: Vec<String> = vec![
        String::from_str("*.tmp"),
        String::from_str("*.cache"),
        String::from_str("*.suo"),
        String::from_str("*.user"),
        String::from_str("*.xlsx"),
        String::from_str("*.xls"),
        String::from_str("*.pdf"),
        String::from_str("*.jpg"),
        String::from_str("*.jpeg"),
        String::from_str("*.png"),
        String::from_str("*.gif"),
        String::from_str("*.ico"),
        String::from_str("*.dll"),
        String::from_str("*.exe"),
        String::from_str("*.so"),
        String::from_str("*.dylib"),
        String::from_str("*.bin"),
        String::from_str(".DS_Store"),
        String::from_str("*.gem"),
        String::from_str("*.log"),
    ];
    let r = RuleSet { allowed_extensions: None, forbidden_dirs: dirs, exclude_patterns: pats };
    proof {
        assert(r@.forbidden_dirs =~= default_rules().forbidden_dirs);
        assert(r@.exclude_patterns =~= default_rules().exclude_patterns);
        assert(r@ =~= default_rules());
    }
    r
}

/// Appends the caller's extra exclusion patterns to the rule set's list,
/// leaving the base list in place before them.
pub fn add_exclude_patterns(rules: &mut RuleSet, extra: Vec<String>)
    ensures
        final(rules)@.allowed_extensions == old(rules)@.allowed_extensions,
        final(rules)@.forbidden_dirs == old(rules)@.forbidden_dirs,
        final(rules)@.exclude_patterns == old(rules)@.exclude_patterns + views_of(extra@),
{
    let ghost old_pats = views_of(old(rules).exclude_patterns@);
    let n: usize = extra.len();
    let mut i: usize = 0;
    let mut extra = extra;
    let ghost extra0 = extra@;
    while i < n
        invariant
            n == extra0.len(),
            i <= n,
            extra@ == extra0,
            rules.allowed_extensions == old(rules).allowed_extensions,
            rules.forbidden_dirs == old(rules).forbidden_dirs,
            views_of(rules.exclude_patterns@) =~= old_pats + views_of(extra0.take(i as int)),
        decreases n - i,
    {
        let p: String = extra[i].clone();
        let ghost pre_pats = rules.exclude_patterns@;
        rules.exclude_patterns.push(p);
        proof {
            assert(rules.exclude_patterns@ == pre_pats.push(p));
            assert(views_of(pre_pats.push(p)) =~= views_of(pre_pats).push(p@));
            assert(p@ == extra0[i as int]@);
            assert(extra0.take(i + 1) =~= extra0.take(i as int).push(extra0[i as int]));
            assert(views_of(extra0.take(i + 1)) =~= views_of(extra0.take(i as int)).push(
                extra0[i as int]@,
            ));
            assert(views_of(rules.exclude_patterns@) =~= old_pats + views_of(
                extra0.take(i + 1),
            ));
        }
        i += 1;
    }
    proof {
        assert(extra0.take(n as int) =~= extra0);
        assert(views_of(rules.exclude_patterns@) =~= old_pats + views_of(extra0));
    }
}

/// Whether a directory basename is pruned by the rule set: pruning is by
/// exact match against the forbidden directory names.
pub fn is_forbidden_dir(rules: &RuleSet, name: &str) -> (r: bool)
    ensures
        r == rules@.forbidden_dirs.contains(name@),
{
    let n: usize = rules.forbidden_dirs.len();
    let mut i: usize = 0;
    while i < n
        invariant
            n == rules.forbidden_dirs@.len(),
            i <= n,
            forall|j: int| 0 <= j < i ==> rules@.forbidden_dirs[j] != name@,
        decreases n - i,
    {
        if str_eq(rules.forbidden_dirs[i].as_str(), name) {
            proof {
                assert(rules@.forbidden_dirs[i as int] == name@);
            }
            return true;
        }
        proof {
            assert(rules@.forbidden_dirs[i as int] == rules.forbidden_dirs@[i as int]@);
        }
        i += 1;
    }
    proof {
        assert forall|j: int| 0 <= j < rules@.forbidden_dirs.len()
            implies rules@.forbidden_dirs[j] != name@ by {}
    }
    false
}

/// One regular file as the traversal hands it to the collector: its full
/// path, its basename, and the probe of its first bytes — absent when the
/// file could not be opened, in which case it counts as text (fail open).
#[derive(Clone, Debug)]
pub struct FileEntry {
    pub path: String,
    pub name: String,
    pub probe: Option<Vec<u8>>,
}

/// The mathematical content of one traversal entry.
#[verifier::ext_equal]
pub struct FileEntryView {
    pub path: Seq<char>,
    pub name: Seq<char>,
    pub probe: Option<Seq<u8>>,
}

/// The view of a probe: the bytes that were read, if any were.
pub open spec fn probe_view(p: Option<Vec<u8>>) -> Option<Seq<u8>> {
    match p {
        Some(b) => Some(b@),
        None => None,
    }
}

impl View for FileEntry {
    type V = FileEntryView;

    open spec fn view(&self) -> FileEntryView {
        FileEntryView { path: self.path@, name: self.name@, probe: probe_view(self.probe) }
    }
}

/// The views of a sequence of traversal entries.
pub open spec fn entry_views(v: Seq<FileEntry>) -> Seq<FileEntryView> {
    v.map_values(|e: FileEntry| e@)
}

/// The result of one collection run: the included files in lexicographic
/// path order, the extensions seen among them, the extensions seen among
/// rejected files, and how many regular files were looked at in all.
#[derive(Clone, Debug)]
pub struct FilterStats {
    pub included_files: Vec<String>,
    pub included_extensions: Vec<String>,
    pub filtered_out_extensions: Vec<String>,
    pub total_processed_files: usize,
}

/// The mathematical content of a collection result.
#[verifier::ext_equal]
pub struct FilterStatsView {
    pub included_files: Seq<Seq<char>>,
    pub included_extensions: Seq<Seq<char>>,
    pub filtered_out_extensions: Seq<Seq<char>>,
    pub total_processed_files: int,
}

impl View for FilterStats {
    type V = FilterStatsView;

    open spec fn view(&self) -> FilterStatsView {
        FilterStatsView {
            included_files: views_of(self.included_files@),
            included_extensions: views_of(self.included_extensions@),
            filtered_out_extensions: views_of(self.filtered_out_extensions@),
            total_processed_files: self.total_processed_files as int,
        }
    }
}

/// Whether a byte sequence holds no null byte.
pub open spec fn no_nulls(p: Seq<u8>) -> bool {
    forall|i: int| 0 <= i < p.len() ==> p[i] != 0
}

/// Text classification of a probe: a missing probe counts as text, a read
/// prefix counts as text exactly when it holds no null byte.
pub open spec fn is_text(probe: Option<Seq<u8>>) -> bool {
    match probe {
        None => true,
        Some(p) => no_nulls(p),
    }
}

/// The extension allowlist stage: with no allowlist every file passes;
/// with one, a file passes when its basename is literally `Gemfile`, or its
/// extension matches some allowlist entry, compared case-insensitively and
/// with the entry's leading dots stripped.
pub open spec fn ext_in_allowlist(list: Seq<Seq<char>>, ext: Seq<char>) -> bool {
    exists|i: int| 0 <= i < list.len() && norm_entry(#[trigger] list[i]) == lower_seq(ext)
}

pub open spec fn ext_allowed(allowed: Option<Seq<Seq<char>>>, name: Seq<char>) -> bool {
    match allowed {
        None => true,
        Some(list) => name == "Gemfile"@ || (match ext_of(name) {
            Some(e) => ext_in_allowlist(list, e),
            None => false,
        }),
    }
}

/// Whether a traversal entry passes all three per-file rules: it is text,
/// no exclusion pattern matches its basename, and its extension is allowed.
pub open spec fn entry_included(rs: RuleSetView, e: FileEntryView) -> bool {
    &&& is_text(e.probe)
    &&& !excluded_by(rs.exclude_patterns, e.name)
    &&& ext_allowed(rs.allowed_extensions, e.name)
}

/// The inclusion predicate as a value, for filtering entry sequences.
pub open spec fn included_pred(rs: RuleSetView) -> spec_fn(FileEntryView) -> bool {
    |e: FileEntryView| entry_included(rs, e)
}

/// The complement of the inclusion predicate: entries rejected at some stage.
pub open spec fn rejected_pred(rs: RuleSetView) -> spec_fn(FileEntryView) -> bool {
    |e: FileEntryView| !entry_included(rs, e)
}

/// The paths of the included entries, in traversal order.
pub open spec fn included_paths(rs: RuleSetView, es: Seq<FileEntryView>) -> Seq<Seq<char>> {
    es.filter(included_pred(rs)).map_values(|e: FileEntryView| e.path)
}

/// Included entries that have an extension.
pub open spec fn included_ext_pred(rs: RuleSetView) -> spec_fn(FileEntryView) -> bool {
    |e: FileEntryView| entry_included(rs, e) && ext_of(e.name) is Some
}

/// Rejected entries that have an extension.
pub open spec fn rejected_ext_pred(rs: RuleSetView) -> spec_fn(FileEntryView) -> bool {
    |e: FileEntryView| !entry_included(rs, e) && ext_of(e.name) is Some
}

/// An entry's extension as the statistics record it: folded to lowercase.
pub open spec fn entry_ext(e: FileEntryView) -> Seq<char> {
    lower_seq(ext_of(e.name).unwrap())
}

/// The set of recorded extensions of the included entries.
pub open spec fn included_ext_set(rs: RuleSetView, es: Seq<FileEntryView>) -> Set<Seq<char>> {
    es.filter(included_ext_pred(rs)).map_values(|e: FileEntryView| entry_ext(e)).to_set()
}

/// The set of recorded extensions of the rejected entries.
pub open spec fn rejected_ext_set(rs: RuleSetView, es: Seq<FileEntryView>) -> Set<Seq<char>> {
    es.filter(rejected_ext_pred(rs)).map_values(|e: FileEntryView| entry_ext(e)).to_set()
}

/// Everything `collect_and_filter` promises of its result: the file count,
/// the included files as the sorted paths of the accepted entries, and the
/// two extension lists as sorted duplicate-free listings of the recorded
/// extension sets.
pub open spec fn collection_ok(rs: RuleSetView, es: Seq<FileEntryView>, st: FilterStatsView) -> bool {
    &&& st.total_processed_files == es.len()
    &&& st.included_files.to_multiset() == included_paths(rs, es).to_multiset()
    &&& st.included_files.len() == included_paths(rs, es).len()
    &&& sorted_by(st.included_files, str_le_order())
    &&& st.included_extensions.to_set() == included_ext_set(rs, es)
    &&& st.included_extensions.no_duplicates()
    &&& sorted_by(st.included_extensions, str_le_order())
    &&& st.filtered_out_extensions.to_set() == rejected_ext_set(rs, es)
    &&& st.filtered_out_extensions.no_duplicates()
    &&& sorted_by(st.filtered_out_extensions, str_le_order())
}

/// Text classification of a probe: a missing probe counts as text, a read
/// prefix counts as text exactly when it holds no null byte.
fn probe_is_text(probe: &Option<Vec<u8>>) -> (r: bool)
    ensures
        r == is_text(probe_view(*probe)),
{
    if probe.is_some() {
        let buf: &Vec<u8> = probe.as_ref().unwrap();
        prefix_has_no_null(buf)
    } else {
        true
    }
}

/// Whether a probe prefix holds no null byte.
fn prefix_has_no_null(buf: &Vec<u8>) -> (r: bool)
    ensures
        r == no_nulls(buf@),
{
    let n: usize = buf.len();
    let mut i: usize = 0;
    while i < n
        invariant
            n == buf@.len(),
            i <= n,
            forall|j: int| 0 <= j < i ==> buf@[j] != 0,
        decreases n - i,
    {
        if buf[i] == 0 {
            proof {
                assert(!no_nulls(buf@));
            }
            return false;
        }
        i += 1;
    }
    proof {
        assert(no_nulls(buf@));
    }
    true
}

/// Whether the extension matches some allowlist entry, case-insensitively
/// and with the entry's leading dots stripped.
fn allowlist_matches(list: &Vec<String>, ext: &str) -> (r: bool)
    ensures
        r == ext_in_allowlist(views_of(list@), ext@),
{
    let n: usize = list.len();
    let mut i: usize = 0;
    while i < n
        invariant
            n == list@.len(),
            i <= n,
            forall|j: int| 0 <= j < i ==> norm_entry(#[trigger] views_of(list@)[j]) != lower_seq(ext@),
        decreases n - i,
    {
        let stripped: &str = strip_dots_front(list[i].as_str());
        if eq_lower(stripped, ext) {
            proof {
                assert(views_of(list@)[i as int] == list@[i as int]@);
                assert(norm_entry(views_of(list@)[i as int]) == lower_seq(ext@));
            }
            return true;
        }
        proof {
            assert(views_of(list@)[i as int] == list@[i as int]@);
        }
        i += 1;
    }
    proof {
        assert(!ext_in_allowlist(views_of(list@), ext@));
    }
    false
}

/// Whether a traversal entry passes all three per-file rules of the rule
/// set: the binary probe, the exclusion patterns, and the allowlist.
pub fn entry_passes(rules: &RuleSet, e: &FileEntry) -> (r: bool)
    ensures
        r == entry_included(rules@, e@),
{
    let text_ok: bool = probe_is_text(&e.probe);
    if !text_ok {
        return false;
    }
    if matches_exclude(&rules.exclude_patterns, e.name.as_str()) {
        return false;
    }
    match rules.allowed_extensions.as_ref() {
        None => {
            proof {
                assert(rules@.allowed_extensions is None);
            }
            true
        },
        Some(list) => {
            proof {
                assert(rules@.allowed_extensions == Some(views_of(list@)));
            }
            if str_eq(e.name.as_str(), "Gemfile") {
                true
            } else {
                let ext: Option<String> = extension_of(e.name.as_str());
                match ext {
                    None => false,
                    Some(x) => allowlist_matches(list, x.as_str()),
                }
            }
        },
    }
}

/// Whether the vector holds a string with these characters.
fn contains_str(v: &Vec<String>, s: &str) -> (r: bool)
    ensures
        r == views_of(v@).contains(s@),
{
    let n: usize = v.len();
    let mut i: usize = 0;
    while i < n
        invariant
            n == v@.len(),
            i <= n,
            forall|j: int| 0 <= j < i ==> views_of(v@)[j] != s@,
        decreases n - i,
    {
        if str_eq(v[i].as_str(), s) {
            proof {
                assert(views_of(v@)[i as int] == s@);
            }
            return true;
        }
        proof {
            assert(views_of(v@)[i as int] == v@[i as int]@);
        }
        i += 1;
    }
    proof {
        assert(!views_of(v@).contains(s@));
    }
    false
}

/// Records a rejected or included file's extension, if it has one, into a
/// sorted duplicate-free extension list, folded to lowercase.
fn record_ext(exts: &mut Vec<String>, name: &str)
    requires
        sorted_by(views_of(old(exts)@), str_le_order()),
        views_of(old(exts)@).no_duplicates(),
    ensures
        sorted_by(views_of(final(exts)@), str_le_order()),
        views_of(final(exts)@).no_duplicates(),
        views_of(final(exts)@).to_set() == (match ext_of(name@) {
            Some(e) => views_of(old(exts)@).to_set().insert(lower_seq(e)),
            None => views_of(old(exts)@).to_set(),
        }),
{
    let ext: Option<String> = extension_of(name);
    match ext {
        None => {},
        Some(x) => {
            let low: String = to_lower(x.as_str());
            if !contains_str(exts, low.as_str()) {
                insert_sorted(exts, low);
            } else {
                proof {
                    assert(views_of(exts@).to_set().contains(lower_seq(ext_of(name@).unwrap())));
                    assert(views_of(exts@).to_set() =~= views_of(exts@).to_set().insert(
                        lower_seq(ext_of(name@).unwrap()),
                    ));
                }
            }
        },
    }
}

/// Walks the traversal entries in order, classifies each through the rule
/// set, and accumulates the collection result: every entry counts toward
/// the total, accepted entries contribute their path and extension, and
/// rejected entries contribute their extension to the filtered statistic.
pub fn collect_and_filter(entries: &Vec<FileEntry>, rules: &RuleSet) -> (r: FilterStats)
    ensures
        collection_ok(rules@, entry_views(entries@), r@),
{
    let ghost rs = rules@;
    let ghost es = entry_views(entries@);
    let mut included_files: Vec<String> = Vec::new();
    let mut included_extensions: Vec<String> = Vec::new();
    let mut filtered_out_extensions: Vec<String> = Vec::new();
    let mut total: usize = 0;
    let n: usize = entries.len();
    let mut i: usize = 0;
    proof {
        reveal(Seq::filter);
        assert(es.take(0) =~= Seq::<FileEntryView>::empty());
        assert(included_paths(rs, es.take(0)) =~= Seq::<Seq<char>>::empty());
        assert(views_of(included_files@) =~= Seq::<Seq<char>>::empty());
        assert(es.take(0).filter(included_ext_pred(rs)).map_values(
            |e: FileEntryView| entry_ext(e),
        ) =~= Seq::<Seq<char>>::empty());
        assert(es.take(0).filter(rejected_ext_pred(rs)).map_values(
            |e: FileEntryView| entry_ext(e),
        ) =~= Seq::<Seq<char>>::empty());
        assert(included_ext_set(rs, es.take(0)) =~= views_of(included_extensions@).to_set());
        assert(rejected_ext_set(rs, es.take(0)) =~= views_of(filtered_out_extensions@).to_set());
    }
    while i < n
        invariant
            n == entries@.len(),
            i <= n,
            rs == rules@,
            es == entry_views(entries@),
            total == i,
            views_of(included_files@).to_multiset() == included_paths(
                rs,
                es.take(i as int),
            ).to_multiset(),
            views_of(included_files@).len() == included_paths(rs, es.take(i as int)).len(),
            sorted_by(views_of(included_files@), str_le_order()),
            views_of(included_extensions@).to_set() == included_ext_set(rs, es.take(i as int)),
            views_of(included_extensions@).no_duplicates(),
            sorted_by(views_of(included_extensions@), str_le_order()),
            views_of(filtered_out_extensions@).to_set() == rejected_ext_set(rs, es.take(i as int)),
            views_of(filtered_out_extensions@).no_duplicates(),
            sorted_by(views_of(filtered_out_extensions@), str_le_order()),
        decreases n - i,
    {
        let e: &FileEntry = &entries[i];
        proof {
            assert(es[i as int] == entries@[i as int]@);
        }
        let inc: bool = entry_passes(rules, e);
        let ghost pre = es.take(i as int);
        let ghost cur = es[i as int];
        proof {
            reveal(Seq::filter);
            assert(es.take(i + 1) =~= pre.push(cur));
            assert(pre.push(cur).drop_last() =~= pre);
            assert(pre.push(cur).last() == cur);
        }
        if inc {
            let ghost pre_files = views_of(included_files@);
            insert_sorted(&mut included_files, e.path.clone());
            proof {
                broadcast use vstd::seq_lib::group_to_multiset_ensures;

                assert(entry_included(rs, cur));
                assert(included_pred(rs)(cur));
                assert(pre.push(cur).filter(included_pred(rs)) == pre.filter(
                    included_pred(rs),
                ).push(cur));
                assert(included_paths(rs, es.take(i + 1)) =~= included_paths(rs, pre).push(
                    cur.path,
                ));
                assert(views_of(included_files@).to_multiset() == pre_files.to_multiset().insert(
                    cur.path,
                ));
            }
            record_ext(&mut included_extensions, e.name.as_str());
            proof {
                broadcast use Seq::<_>::lemma_push_to_set_commute;

                assert(included_ext_pred(rs)(cur) == (ext_of(cur.name) is Some));
                if ext_of(cur.name) is Some {
                    assert(pre.push(cur).filter(included_ext_pred(rs)) == pre.filter(
                        included_ext_pred(rs),
                    ).push(cur));
                    assert(es.take(i + 1).filter(included_ext_pred(rs)).map_values(
                        |x: FileEntryView| entry_ext(x),
                    ) =~= pre.filter(included_ext_pred(rs)).map_values(
                        |x: FileEntryView| entry_ext(x),
                    ).push(entry_ext(cur)));
                    assert(included_ext_set(rs, es.take(i + 1)) =~= included_ext_set(
                        rs,
                        pre,
                    ).insert(entry_ext(cur)));
                } else {
                    assert(pre.push(cur).filter(included_ext_pred(rs)) == pre.filter(
                        included_ext_pred(rs),
                    ));
                    assert(included_ext_set(rs, es.take(i + 1)) =~= included_ext_set(rs, pre));
                }
                assert(pre.push(cur).filter(rejected_ext_pred(rs)) == pre.filter(
                    rejected_ext_pred(rs),
                ));
                assert(rejected_ext_set(rs, es.take(i + 1)) =~= rejected_ext_set(rs, pre));
            }
        } else {
            record_ext(&mut filtered_out_extensions, e.name.as_str());
            proof {
                broadcast use Seq::<_>::lemma_push_to_set_commute;

                assert(!entry_included(rs, cur));
                assert(!included_pred(rs)(cur));
                assert(pre.push(cur).filter(included_pred(rs)) == pre.filter(included_pred(rs)));
                assert(included_paths(rs, es.take(i + 1)) =~= included_paths(rs, pre));
                assert(rejected_ext_pred(rs)(cur) == (ext_of(cur.name) is Some));
                if ext_of(cur.name) is Some {
                    assert(pre.push(cur).filter(rejected_ext_pred(rs)) == pre.filter(
                        rejected_ext_pred(rs),
                    ).push(cur));
                    assert(es.take(i + 1).filter(rejected_ext_pred(rs)).map_values(
                        |x: FileEntryView| entry_ext(x),
                    ) =~= pre.filter(rejected_ext_pred(rs)).map_values(
                        |x: FileEntryView| entry_ext(x),
                    ).push(entry_ext(cur)));
                    assert(rejected_ext_set(rs, es.take(i + 1)) =~= rejected_ext_set(
                        rs,
                        pre,
                    ).insert(entry_ext(cur)));
                } else {
                    assert(pre.push(cur).filter(rejected_ext_pred(rs)) == pre.filter(
                        rejected_ext_pred(rs),
                    ));
                    assert(rejected_ext_set(rs, es.take(i + 1)) =~= rejected_ext_set(rs, pre));
                }
                assert(pre.push(cur).filter(included_ext_pred(rs)) == pre.filter(
                    included_ext_pred(rs),
                ));
                assert(included_ext_set(rs, es.take(i + 1)) =~= included_ext_set(rs, pre));
            }
        }
        total += 1;
        i += 1;
    }
    proof {
        assert(es.take(n as int) =~= es);
    }
    FilterStats {
        included_files,
        included_extensions,
        filtered_out_extensions,
        total_processed_files: total,
    }
}

} // verus!
