use ctxmenu::create::{Fault, fault_text};
use ctxmenu::favourites::fav_fault_text;
use ctxmenu::i18n::strings_for;
use ctxmenu::settings::Language;
use ctxmenu::tools::{Tool, Usable, docs_url, group_tools, matches_tool};

fn tool(summary: &str, tag: Option<&str>) -> Tool {
    Tool {
        path: format!("/api/v1/tools/{}", summary.to_lowercase()),
        base: "/".into(),
        progress: String::new(),
        method: "POST".into(),
        tag: tag.map(str::to_string),
        summary: summary.into(),
        description: None,
        file_field: "file".into(),
        usable: Usable::Yes,
    }
}

/// The group each tool falls into: the tag the description gives it, and
/// a catch-all for the rest.
fn grouped(tools: &[Tool]) -> Vec<String> {
    tools
        .iter()
        .map(|t| t.tag.clone().unwrap_or_else(|| "Sonstige".to_string()))
        .collect()
}

#[test]
fn tools_are_listed_under_the_group_the_description_puts_them_in() {
    let tools = vec![
        tool("Compress", Some("Image")),
        tool("Merge", Some("PDF")),
        tool("Resize", Some("Image")),
        tool("Convert", None),
    ];

    let groups = group_tools(&tools, "", &grouped(&tools), false);

    // Biggest group first, and inside it the order the description listed
    // them in.
    assert_eq!(groups[0].0, "Image");
    assert_eq!(groups[0].1, vec![0, 2]);
    // Nothing is lost on the way into the groups.
    assert_eq!(groups.iter().map(|(_, list)| list.len()).sum::<usize>(), 4);
}

#[test]
fn a_search_covers_name_path_and_group_and_drops_empty_groups() {
    let tools = vec![tool("Compress", Some("Image")), tool("Merge", Some("PDF"))];
    let grouping = grouped(&tools);

    assert_eq!(group_tools(&tools, "compress", &grouping, false).len(), 1);
    // By path: every tool's path carries its name here.
    assert_eq!(
        group_tools(&tools, "/api/v1/tools/merge", &grouping, false)[0].1,
        vec![1]
    );
    // By group: the whole group answers.
    assert_eq!(group_tools(&tools, "image", &grouping, false)[0].1, vec![0]);
    assert!(group_tools(&tools, "nothing like this", &grouping, false).is_empty());
}

#[test]
fn tools_that_only_hand_back_a_job_number_stay_out_of_the_list() {
    let mut tools = vec![
        tool("Compress", Some("Image")),
        tool("Transcribe", Some("Audio")),
    ];
    tools[1].usable = Usable::Asynchronous;
    let grouping = grouped(&tools);

    let groups = group_tools(&tools, "", &grouping, false);
    assert_eq!(groups.len(), 1);
    assert_eq!(groups[0].1, vec![0]);

    // But reachable, so nothing vanishes without a way back.
    assert_eq!(group_tools(&tools, "", &grouping, true).len(), 2);
}

#[test]
fn groups_of_one_size_come_in_the_order_of_their_names() {
    let tools = vec![
        tool("A", Some("Zeta")),
        tool("B", Some("Alpha")),
        tool("C", Some("Mid")),
        tool("D", Some("Mid")),
        tool("E", Some("Beta")),
    ];
    let groups = group_tools(&tools, "", &grouped(&tools), false);
    let names: Vec<&str> = groups.iter().map(|(name, _)| name.as_str()).collect();
    assert_eq!(names, ["Mid", "Alpha", "Beta", "Zeta"]);
    assert_eq!(groups[0].1, vec![2, 3]);
}

#[test]
fn a_tool_answers_a_search_by_summary_path_or_group_in_any_case() {
    let t = tool("Compress PDF", Some("Documents"));
    assert!(matches_tool(&t, "compress"));
    assert!(matches_tool(&t, "tools/compress"));
    assert!(matches_tool(&t, "docu"));
    assert!(!matches_tool(&t, "image"));
    assert!(!matches_tool(&tool("Compress", None), "documents"));
}

#[test]
fn the_documentation_of_a_tool_is_the_page_beside_its_description() {
    let tagged = tool("Compress", Some("Tools"));

    // The stored address is the document; a human wants its directory.
    assert_eq!(
        docs_url("http://host:1349/api/docs/openapi.json", &tagged),
        "http://host:1349/api/docs/#tag/tools/POST/api/v1/tools/compress"
    );
    // An address that is already a page stays one.
    assert_eq!(
        docs_url("http://host:1349/api/docs/", &tagged),
        "http://host:1349/api/docs/#tag/tools/POST/api/v1/tools/compress"
    );

    // Without a tag there is no anchor to build, and the front page of the
    // documentation is still the right place to land.
    let untagged = tool("Compress", None);
    assert_eq!(
        docs_url("http://host:1349/api/docs/", &untagged),
        "http://host:1349/api/docs/"
    );
}

#[test]
fn a_fragment_and_the_space_around_the_address_are_dropped() {
    let mut t = tool("Compress", None);
    assert_eq!(
        docs_url("  https://h/spec.yaml#intro  ", &t),
        "https://h/"
    );
    assert_eq!(docs_url("https://h/api/spec.yml", &t), "https://h/api/");
    assert_eq!(docs_url("https://h/api/readme", &t), "https://h/api/readme");
    t.method = "get".into();
    t.tag = Some("ÄÖ".into());
    assert_eq!(
        docs_url("https://h/openapi.json", &t),
        "https://h/#tag/äö/GET/api/v1/tools/compress"
    );
}

#[test]
fn every_fault_of_an_entry_speaks_the_language_on_screen() {
    let en = strings_for(Language::English);
    let de = strings_for(Language::German);
    assert_eq!(fault_text(&Fault::MissingKeyName, &en), en.fault_key_name);
    assert_eq!(fault_text(&Fault::MissingKeyName, &de), de.fault_key_name);
    assert_eq!(
        fault_text(&Fault::UnusualPosition("Middle".into()), &en),
        "Unknown position \"Middle\": Windows only knows Top and Bottom."
    );
    assert_eq!(
        fault_text(&Fault::ChildMissingCommand(3), &de),
        "Zeile 3 des Untermenüs hat keinen Befehl."
    );
    assert_eq!(
        fault_text(&Fault::DuplicateChildKeyName("01_x".into()), &en),
        "The key name 01_x appears twice in the submenu."
    );
}

#[test]
fn every_fault_of_a_favourite_speaks_the_language_on_screen() {
    let en = strings_for(Language::English);
    assert_eq!(fav_fault_text(&ctxmenu::favourites::Fault::MissingName, &en), en.fault_fav_name);
    assert_eq!(
        fav_fault_text(&ctxmenu::favourites::Fault::FileNotFound("C:\\x.exe".into()), &en),
        "The file C:\\x.exe does not exist."
    );
    assert_eq!(fav_fault_text(&ctxmenu::favourites::Fault::NoPlaceholder, &en), en.fault_fav_placeholder);
}
