use pj_rs::filters::{
    collect_and_filter, entry_passes, get_default_config, get_template, is_forbidden_dir,
    FileEntry, RuleSet,
};

fn strs(v: &[&str]) -> Vec<String> {
    v.iter().map(|s| s.to_string()).collect()
}

fn text_file(path: &str) -> FileEntry {
    let name = path.rsplit('/').next().unwrap().to_string();
    FileEntry {
        path: path.to_string(),
        name,
        probe: Some(b"plain text content\n".to_vec()),
    }
}

fn binary_file(path: &str) -> FileEntry {
    let name = path.rsplit('/').next().unwrap().to_string();
    FileEntry {
        path: path.to_string(),
        name,
        probe: Some(vec![0x4d, 0x5a, 0x00, 0x01, 0x02]),
    }
}

fn unreadable_file(path: &str) -> FileEntry {
    let name = path.rsplit('/').next().unwrap().to_string();
    FileEntry { path: path.to_string(), name, probe: None }
}

#[test]
fn cs_scenario_binary_and_pruned_dir() {
    // root holds a.cs (text), b.dll (binary) and bin/c.cs; `bin` is pruned,
    // so c.cs never reaches the collector and is never counted
    let rules = get_template("cs").expect("cs is a known template");
    assert!(is_forbidden_dir(&rules, "bin"));
    let entries = vec![text_file("a.cs"), binary_file("b.dll")];
    let stats = collect_and_filter(&entries, &rules);
    assert_eq!(stats.included_files, strs(&["a.cs"]));
    assert_eq!(stats.included_extensions, strs(&["cs"]));
    assert_eq!(stats.filtered_out_extensions, strs(&["dll"]));
    assert_eq!(stats.total_processed_files, 2);
}

#[test]
fn gemfile_included_without_allowlist() {
    // with the default rules there is no allowlist: Gemfile passes the
    // extension stage the ordinary way, not through the special case
    let rules = get_default_config();
    let entries = vec![text_file("Gemfile")];
    let stats = collect_and_filter(&entries, &rules);
    assert_eq!(stats.included_files, strs(&["Gemfile"]));
    assert_eq!(stats.included_extensions, Vec::<String>::new());
    assert_eq!(stats.filtered_out_extensions, Vec::<String>::new());
    assert_eq!(stats.total_processed_files, 1);
}

#[test]
fn rb_scenario_gemfile_exception_and_gem_pattern() {
    let rules = get_template("rb").expect("rb is a known template");
    let entries = vec![text_file("Gemfile"), text_file("app.rb"), text_file("app.gem")];
    let stats = collect_and_filter(&entries, &rules);
    assert_eq!(stats.included_files, strs(&["Gemfile", "app.rb"]));
    assert_eq!(stats.included_extensions, strs(&["rb"]));
    assert_eq!(stats.filtered_out_extensions, strs(&["gem"]));
    assert_eq!(stats.total_processed_files, 3);
}

#[test]
fn gemfile_exception_holds_for_unrelated_template() {
    // the Gemfile bypass is unconditional: it applies under the cs
    // template as well
    let rules = get_template("cs").expect("cs is a known template");
    assert!(entry_passes(&rules, &text_file("Gemfile")));
}

#[test]
fn extra_exclude_overrides_allowlist_match() {
    // a user exclude pattern on top of the cs template rejects a file the
    // allowlist would admit, and its extension is still recorded
    let mut rules = get_template("cs").expect("cs is a known template");
    pj_rs::filters::add_exclude_patterns(&mut rules, strs(&["*.generated.*"]));
    let entries = vec![text_file("Foo.generated.cs"), text_file("Foo.cs")];
    let stats = collect_and_filter(&entries, &rules);
    assert_eq!(stats.included_files, strs(&["Foo.cs"]));
    assert_eq!(stats.filtered_out_extensions, strs(&["cs"]));
    assert_eq!(stats.included_extensions, strs(&["cs"]));
    assert_eq!(stats.total_processed_files, 2);
}

#[test]
fn totals_account_for_every_rejection() {
    // rejected at three different stages plus two accepted: the difference
    // between processed and included equals the rejections
    let rules = get_template("cs").expect("cs is a known template");
    let entries = vec![
        text_file("a.cs"),
        binary_file("b.dll"),
        text_file("c.suo"),
        text_file("d.txt"),
        text_file("e.xaml"),
    ];
    let stats = collect_and_filter(&entries, &rules);
    assert_eq!(stats.total_processed_files, 5);
    assert_eq!(stats.included_files.len(), 2);
    assert_eq!(stats.total_processed_files - stats.included_files.len(), 3);
    assert!(stats.total_processed_files >= stats.included_files.len());
}

#[test]
fn accepted_files_pass_every_rule() {
    let rules = get_template("cs").expect("cs is a known template");
    // binary content is rejected even with an allowed extension
    let entries = vec![binary_file("a.cs")];
    let stats = collect_and_filter(&entries, &rules);
    assert_eq!(stats.included_files, Vec::<String>::new());
    assert_eq!(stats.filtered_out_extensions, strs(&["cs"]));
    // an excluded name is rejected even with an allowed extension
    let entries = vec![text_file("AssemblyInfo.cs")];
    let stats = collect_and_filter(&entries, &rules);
    assert_eq!(stats.included_files, Vec::<String>::new());
    // a disallowed extension is rejected even when text
    let entries = vec![text_file("a.txt")];
    let stats = collect_and_filter(&entries, &rules);
    assert_eq!(stats.included_files, Vec::<String>::new());
    assert_eq!(stats.filtered_out_extensions, strs(&["txt"]));
}

#[test]
fn unreadable_file_is_treated_as_text() {
    // a probe that could not be read fails open: the file counts as text
    let rules = get_default_config();
    let entries = vec![unreadable_file("notes.md")];
    let stats = collect_and_filter(&entries, &rules);
    assert_eq!(stats.included_files, strs(&["notes.md"]));
    assert_eq!(stats.included_extensions, strs(&["md"]));
}

#[test]
fn included_files_sorted_without_duplicates() {
    let rules = get_default_config();
    let entries = vec![
        text_file("z.txt"),
        text_file("a.txt"),
        text_file("m/q.txt"),
        text_file("b.txt"),
    ];
    let stats = collect_and_filter(&entries, &rules);
    assert_eq!(stats.included_files, strs(&["a.txt", "b.txt", "m/q.txt", "z.txt"]));
    for w in stats.included_files.windows(2) {
        assert!(w[0] < w[1]);
    }
}

#[test]
fn collector_is_idempotent() {
    let rules = get_template("rails").expect("rails is a known template");
    let entries = vec![
        text_file("app/models/user.rb"),
        text_file("db/dev.sqlite3"),
        binary_file("logo.png"),
        text_file("app/views/index.erb"),
        text_file("Gemfile"),
    ];
    let once = collect_and_filter(&entries, &rules);
    let twice = collect_and_filter(&entries, &rules);
    assert_eq!(once.included_files, twice.included_files);
    assert_eq!(once.included_extensions, twice.included_extensions);
    assert_eq!(once.filtered_out_extensions, twice.filtered_out_extensions);
    assert_eq!(once.total_processed_files, twice.total_processed_files);
}

#[test]
fn empty_traversal_yields_empty_result() {
    let rules = get_default_config();
    let entries: Vec<FileEntry> = Vec::new();
    let stats = collect_and_filter(&entries, &rules);
    assert_eq!(stats.included_files, Vec::<String>::new());
    assert_eq!(stats.included_extensions, Vec::<String>::new());
    assert_eq!(stats.filtered_out_extensions, Vec::<String>::new());
    assert_eq!(stats.total_processed_files, 0);
}

#[test]
fn extension_comparison_is_case_insensitive() {
    let rules = RuleSet {
        allowed_extensions: Some(strs(&["CS"])),
        forbidden_dirs: Vec::new(),
        exclude_patterns: Vec::new(),
    };
    let stats = collect_and_filter(&vec![text_file("a.cs"), text_file("b.Cs")], &rules);
    assert_eq!(stats.included_files, strs(&["a.cs", "b.Cs"]));
    // recorded extensions are folded to lowercase and deduplicated
    assert_eq!(stats.included_extensions, strs(&["cs"]));
}

#[test]
fn allowlist_entry_dots_are_stripped() {
    let rules = RuleSet {
        allowed_extensions: Some(strs(&["...rb"])),
        forbidden_dirs: Vec::new(),
        exclude_patterns: Vec::new(),
    };
    let stats = collect_and_filter(&vec![text_file("app.rb")], &rules);
    assert_eq!(stats.included_files, strs(&["app.rb"]));
}

#[test]
fn hidden_files_have_no_extension() {
    // .gitignore has no extension, so an allowlist admits it neither way
    let rules = get_template("cs").expect("cs is a known template");
    let stats = collect_and_filter(&vec![text_file(".gitignore")], &rules);
    assert_eq!(stats.included_files, Vec::<String>::new());
    assert_eq!(stats.filtered_out_extensions, Vec::<String>::new());
    assert_eq!(stats.total_processed_files, 1);
}
