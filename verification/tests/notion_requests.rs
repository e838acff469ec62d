use m2n::markdown::{markdown_to_blocks, Block};
use m2n::notion::{
    check_status, database_info, inspect_database, integration_name, page_id_of, plan_page, DatabaseInfo, NotionError,
    Property, MAX_BLOCKS_PER_REQ,
};

fn prop(name: &str, kind: &str) -> Property {
    Property { name: name.to_string(), kind: kind.to_string() }
}

#[test]
fn success_statuses_pass() {
    assert_eq!(check_status(200, "200 OK", None), Ok(()));
    assert_eq!(check_status(299, "299", Some("x")), Ok(()));
}

#[test]
fn failure_statuses_name_the_problem() {
    assert_eq!(check_status(401, "401 Unauthorized", Some("bad")), Err(NotionError::InvalidToken));
    let e = check_status(403, "403 Forbidden", Some("no rights")).unwrap_err();
    assert_eq!(e, NotionError::NoAccess { message: "no rights".to_string() });
    assert_eq!(e.message(), "No access: no rights. Share the database with your integration in Notion.");
    let e = check_status(404, "404 Not Found", None).unwrap_err();
    assert_eq!(e.message(), "Not found (404): unknown error.");
    let e = check_status(500, "500 Internal Server Error", Some("boom")).unwrap_err();
    assert_eq!(e.message(), "Notion API error (500 Internal Server Error): boom");
    assert_eq!(
        NotionError::InvalidToken.message(),
        "Notion token is invalid. Check notion.token in your config."
    );
    assert_eq!(check_status(199, "199", None).unwrap_err().message(), "Notion API error (199): unknown error");
}

#[test]
fn database_properties_are_found_by_type_and_name() {
    let info = database_info(&vec![prop("Name", "title"), prop("Status", "select"), prop("Tags", "multi_select")]);
    assert_eq!(
        info,
        DatabaseInfo {
            title_prop: "Name".to_string(),
            status_prop: Some("Status".to_string()),
            tags_prop: Some("Tags".to_string()),
        }
    );
    let info = database_info(&vec![prop("STATUS", "select"), prop("Page", "title"), prop("tags", "select"), prop("Stage", "select")]);
    assert_eq!(
        info,
        DatabaseInfo { title_prop: "Page".to_string(), status_prop: Some("STATUS".to_string()), tags_prop: None }
    );
    let info = database_info(&vec![]);
    assert_eq!(info, DatabaseInfo { title_prop: "Name".to_string(), status_prop: None, tags_prop: None });
}

#[test]
fn answers_without_the_needed_field() {
    assert_eq!(inspect_database(None), Err(NotionError::NoProperties));
    assert_eq!(NotionError::NoProperties.message(), "Database has no properties");
    assert_eq!(page_id_of(None), Err(NotionError::MissingPageId));
    assert_eq!(page_id_of(Some("p".to_string())), Ok("p".to_string()));
    assert_eq!(integration_name(None), "integration");
    assert_eq!(integration_name(Some("Bot".to_string())), "Bot");
}

fn many_blocks(n: usize) -> Vec<Block> {
    let body: String = (0..n).map(|i| format!("- item {}\n", i)).collect();
    markdown_to_blocks(&body)
}

#[test]
fn page_request_carries_the_fields() {
    let info = DatabaseInfo {
        title_prop: "Name".to_string(),
        status_prop: Some("Status".to_string()),
        tags_prop: Some("Tags".to_string()),
    };
    let blocks = many_blocks(2);
    let plan = plan_page(
        "db1",
        &info,
        "Title",
        &Some("draft".to_string()),
        &vec!["a".to_string(), "b".to_string()],
        &blocks,
    );
    let v: serde_json::Value = serde_json::from_str(&plan.create_body).unwrap();
    assert_eq!(v["parent"]["database_id"], "db1");
    assert_eq!(v["properties"]["Name"]["title"][0]["text"]["content"], "Title");
    assert_eq!(v["properties"]["Status"]["select"]["name"], "draft");
    assert_eq!(v["properties"]["Tags"]["multi_select"][1]["name"], "b");
    assert_eq!(v["children"].as_array().unwrap().len(), 2);
    assert!(plan.append_bodies.is_empty());
}

#[test]
fn page_request_skips_fields_without_a_property() {
    let info = DatabaseInfo { title_prop: "Title".to_string(), status_prop: None, tags_prop: None };
    let long = "t".repeat(2500);
    let plan = plan_page("db", &info, &long, &Some("x".to_string()), &vec!["a".to_string()], &vec![]);
    let v: serde_json::Value = serde_json::from_str(&plan.create_body).unwrap();
    let props = v["properties"].as_object().unwrap();
    assert_eq!(props.len(), 1);
    assert_eq!(v["properties"]["Title"]["title"][0]["text"]["content"].as_str().unwrap().len(), 2000);
    let info = DatabaseInfo {
        title_prop: "Title".to_string(),
        status_prop: Some("S".to_string()),
        tags_prop: Some("T".to_string()),
    };
    let plan = plan_page("db", &info, "x", &Some("".to_string()), &vec![], &vec![]);
    let v: serde_json::Value = serde_json::from_str(&plan.create_body).unwrap();
    assert_eq!(v["properties"].as_object().unwrap().len(), 1);
}

#[test]
fn blocks_go_in_batches_of_at_most_one_hundred() {
    let info = DatabaseInfo { title_prop: "Name".to_string(), status_prop: None, tags_prop: None };
    let blocks = many_blocks(250);
    assert_eq!(blocks.len(), 250);
    let plan = plan_page("db", &info, "T", &None, &vec![], &blocks);
    let first: serde_json::Value = serde_json::from_str(&plan.create_body).unwrap();
    let first = first["children"].as_array().unwrap().clone();
    assert_eq!(first.len(), MAX_BLOCKS_PER_REQ);
    assert_eq!(plan.append_bodies.len(), 2);
    let mut all = first;
    for (body, size) in plan.append_bodies.iter().zip([100usize, 50]) {
        let v: serde_json::Value = serde_json::from_str(body).unwrap();
        let children = v["children"].as_array().unwrap();
        assert_eq!(children.len(), size);
        all.extend(children.iter().cloned());
    }
    for (i, b) in all.iter().enumerate() {
        assert_eq!(b["bulleted_list_item"]["rich_text"][0]["text"]["content"], format!("item {}", i));
    }
    let plan = plan_page("db", &info, "T", &None, &vec![], &many_blocks(100));
    assert!(plan.append_bodies.is_empty());
    let plan = plan_page("db", &info, "T", &None, &vec![], &many_blocks(101));
    assert_eq!(plan.append_bodies.len(), 1);
}
