use cooklang::{
    completion_names, decimal_text, index_source, is_recipe_file_name, process_str, step_hints,
    BackendError, DocEntry, DocEvent, DocState, DocumentIndex, StepHint,
};

#[test]
fn test_tricky() {
    let text = "
            foo @bar bar{1%kg}\n\
            >> foo[-foo--?-]:bar[- -- BAR -]\n\
            >> ba/r: fo-o\n\
            foo @po-- [--]mme verte--- {}\n\
            foo @po [--]mme verte{}\n\
            foo @po[--]mme verte{1}\n\
            foo @po [--] mme verte{1%kg}\n\
            foo @po[--] mme verte{1 %kg}\n\
            foo @po [--]mme verte{   1  %  kg }\n\
            foo @po [--]mme verte{   1 [- ou plus-] %  kg [- ou pas -] } dans une #poil\n\
            foo @po [--]mme verte{   1 [- ou plus-] %  kg [- ou pas -] }\n\
            >> ba/r: fo-o\n\
        ";

    let parsed = index_source(text);
    assert_eq!(
        parsed.ingredients,
        vec![
            "bar bar",
            "po",
            "po mme verte",
            "pomme verte",
            "po  mme verte",
            "po mme verte",
            "po mme verte",
            "po mme verte",
            "po mme verte",
        ]
    );
    assert_eq!(parsed.cookwares, vec!["poil"]);
    assert_eq!(parsed.step_lines, vec![1, 4, 5, 6, 7, 8, 9, 10, 11,])
}

#[test]
fn step_lines_follow_source_lines_across_block_comments() {
    let parsed = index_source("a [- x\n y -] b\nc");
    assert_eq!(parsed.step_lines, vec![0, 2]);
}

#[test]
fn process_str_tags_and_deduplicates() {
    let d = process_str("Add @salt and @salt to the #pan\n>> k: v\nthen #pan again");
    assert_eq!(d.ingredients, vec!["@salt"]);
    assert_eq!(d.cookwares, vec!["#pan"]);
    assert_eq!(d.step_lines, vec![0, 2]);
}

#[test]
fn completion_is_a_union_without_repeats() {
    let mut indexed = DocEntry::unopened().after(DocEvent::Scan("@egg #bowl @egg".to_string()));
    indexed = indexed.after(DocEvent::Change("@unsaved".to_string()));
    let opened = DocEntry::unopened().after(DocEvent::Open("@ignored".to_string()));
    let names = completion_names(
        &vec!["@flour".to_string(), "@egg".to_string()],
        &vec!["#whisk".to_string()],
        &vec![indexed, opened],
    );
    let mut sorted = names.clone();
    sorted.sort();
    assert_eq!(sorted, vec!["#bowl", "#whisk", "@egg", "@flour"]);
}

#[test]
fn entry_lifecycle() {
    let e = DocEntry::unopened();
    assert_eq!(e.state(), DocState::Unopened);
    let e = e.after(DocEvent::Open("@a".to_string()));
    assert_eq!(e.state(), DocState::Opened);
    assert_eq!(e.step_lines(), None);
    let e = e.after(DocEvent::Change("x\n@b".to_string()));
    assert_eq!(e.raw_text(), Some("x\n@b".to_string()));
    assert_eq!(e.step_lines(), None);
    let e = e.after(DocEvent::Save("x\n@b".to_string()));
    assert_eq!(e.state(), DocState::Indexed);
    assert_eq!(e.step_lines(), Some(vec![0, 1]));
    let e = e.after(DocEvent::Change("only one line".to_string()));
    assert_eq!(e.step_lines(), Some(vec![0, 1]));
    assert_eq!(e.raw_text(), Some("only one line".to_string()));
}

#[test]
fn hints_are_numbered_from_one() {
    assert_eq!(
        step_hints(&vec![3, 7]),
        vec![
            StepHint { line: 3, label: "step 1: ".to_string() },
            StepHint { line: 7, label: "step 2: ".to_string() },
        ]
    );
    assert_eq!(step_hints(&vec![]), vec![]);
}

#[test]
fn decimal_numbers() {
    assert_eq!(decimal_text(0), "0");
    assert_eq!(decimal_text(9), "9");
    assert_eq!(decimal_text(10), "10");
    assert_eq!(decimal_text(1207), "1207");
}

#[test]
fn recipe_file_names() {
    assert!(is_recipe_file_name("soup.cook"));
    assert!(is_recipe_file_name("a.b.cook"));
    assert!(!is_recipe_file_name(".cook"));
    assert!(!is_recipe_file_name("soup.cooky"));
    assert!(!is_recipe_file_name("soup.md"));
    assert!(!is_recipe_file_name("cook"));
}

#[test]
fn backend_error_message() {
    assert_eq!(BackendError::NoConfigDir.message(), "Can't find config dir");
}

#[test]
fn lifecycle_reparses_only_on_save() {
    let index = DocumentIndex::new(vec!["@flour".to_string()], vec![]);
    let f = "/w/soup.cook".to_string();
    index.did_open(f.clone(), "@carrot\n@leek".to_string());
    assert_eq!(index.state(&f), DocState::Opened);
    assert_eq!(index.get_step_lines(&f), None);
    assert_eq!(index.inlay_hints(&f), None);
    assert_eq!(index.completions(), vec!["@flour"]);

    index.did_change(f.clone(), "@onion".to_string());
    assert_eq!(index.get_raw_text(&f), Some("@onion".to_string()));
    assert_eq!(index.get_step_lines(&f), None);
    assert_eq!(index.completions(), vec!["@flour"]);

    index.did_save(f.clone(), "@onion".to_string());
    assert_eq!(index.state(&f), DocState::Indexed);
    assert_eq!(index.get_step_lines(&f), Some(vec![0]));
    let mut names = index.completions();
    names.sort();
    assert_eq!(names, vec!["@flour", "@onion"]);
    assert_eq!(
        index.inlay_hints(&f),
        Some(vec![StepHint { line: 0, label: "step 1: ".to_string() }])
    );

    index.did_change(f.clone(), "@garlic".to_string());
    let mut names = index.completions();
    names.sort();
    assert_eq!(names, vec!["@flour", "@onion"]);
}

#[test]
fn unknown_path_is_not_found_and_empty_steps_are_empty() {
    let index = DocumentIndex::new(vec![], vec![]);
    let unknown = "/w/none.cook".to_string();
    assert_eq!(index.get_step_lines(&unknown), None);
    assert_eq!(index.get_raw_text(&unknown), None);
    assert_eq!(index.state(&unknown), DocState::Unopened);
    let meta_only = "/w/meta.cook".to_string();
    index.scan_file(meta_only.clone(), ">> servings: 2".to_string());
    assert_eq!(index.get_step_lines(&meta_only), Some(vec![]));
    assert_eq!(index.inlay_hints(&meta_only), Some(vec![]));
    assert_eq!(index.get_raw_text(&meta_only), None);
}

#[test]
fn scanned_files_feed_completion() {
    let index = DocumentIndex::new(vec![], vec!["#oven".to_string()]);
    index.scan_file("/w/a.cook".to_string(), "@egg #pan".to_string());
    index.scan_file("/w/b.cook".to_string(), "@egg @milk".to_string());
    let mut names = index.completions();
    names.sort();
    assert_eq!(names, vec!["#oven", "#pan", "@egg", "@milk"]);
}
