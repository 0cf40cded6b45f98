use webapp_lib::http::{ApiError, HttpMethod, ResourcePath};
use webapp_lib::reactive::{
    apply_deleted_row, apply_saved_row, lookup_display_name, navigate, navigate_push,
    navigate_up_target, position_of_id, reference_list_step, resource_request, resource_update_request, sort_by_name,
    update_record_request, Keyed, ListComponentModel, LoadStart, LookupData, LookupDataRequest,
    ReferenceListStep, ResourceLoad,
};

fn s(x: &str) -> String {
    x.to_string()
}

fn data(id: &str, name: &str) -> LookupData {
    LookupData { id: s(id), name: s(name), description: None }
}

fn row(id: &str, name: &str) -> Keyed<LookupData> {
    Keyed { id: s(id), name: s(name), record: data(id, name) }
}

fn ids(rows: &[Keyed<LookupData>]) -> Vec<&str> {
    rows.iter().map(|r| r.id.as_str()).collect()
}

#[test]
fn sort_by_name_orders_and_keeps_ties_stable() {
    let rows = vec![row("1", "pear"), row("2", "apple"), row("3", "Zebra"), row("4", "apple"), row("5", "")];
    let sorted = sort_by_name(rows);
    // Byte order: "" < "Zebra" < "apple" < "apple" < "pear"; equal names keep their order.
    assert_eq!(ids(&sorted), vec!["5", "3", "2", "4", "1"]);
}

#[test]
fn sort_by_name_matches_std_stable_sort() {
    let names = ["béta", "alpha", "Alpha", "alphabet", "b", "alpha", "Ä", "z"];
    let rows: Vec<Keyed<LookupData>> =
        names.iter().enumerate().map(|(i, n)| row(&i.to_string(), n)).collect();
    let mut expected: Vec<(String, String)> = rows.iter().map(|r| (r.id.clone(), r.name.clone())).collect();
    expected.sort_by(|a, b| a.1.cmp(&b.1));
    let sorted = sort_by_name(rows);
    let expected_ids: Vec<&str> = expected.iter().map(|e| e.0.as_str()).collect();
    assert_eq!(ids(&sorted), expected_ids);
    assert_eq!(sorted[0].record.name, sorted[0].name);
}

#[test]
fn sorting_sorted_list_changes_nothing() {
    let rows = vec![row("a", "a"), row("b", "b"), row("c", "c")];
    assert_eq!(ids(&sort_by_name(rows)), vec!["a", "b", "c"]);
    assert!(sort_by_name(Vec::<Keyed<LookupData>>::new()).is_empty());
}

#[test]
fn position_of_id_finds_first() {
    let rows = vec![row("x", "1"), row("y", "2"), row("y", "3")];
    assert_eq!(position_of_id(&rows, "y"), Some(1));
    assert_eq!(position_of_id(&rows, "z"), None);
}

#[test]
fn saved_row_replaces_existing_in_place() {
    let rows = vec![row("1", "b"), row("2", "a")];
    let out = apply_saved_row(rows, "1", row("1", "zz"));
    assert_eq!(ids(&out), vec!["1", "2"]);
    assert_eq!(out[0].name, "zz");
}

#[test]
fn saved_new_row_is_added_and_list_sorted() {
    let rows = vec![row("1", "c"), row("2", "a")];
    let out = apply_saved_row(rows, "", row("3", "b"));
    assert_eq!(ids(&out), vec!["2", "3", "1"]);
}

#[test]
fn deleted_row_is_removed() {
    let mut rows = vec![row("1", "a"), row("2", "b"), row("2", "c")];
    apply_deleted_row(&mut rows, "2");
    assert_eq!(ids(&rows), vec!["1", "2"]);
    assert_eq!(rows[1].name, "c");
    assert_eq!(rows[1].record.name, "c");
    apply_deleted_row(&mut rows, "9");
    assert_eq!(ids(&rows), vec!["1", "2"]);
}

#[test]
fn new_model_is_loading_and_empty() {
    let m: ListComponentModel<LookupData> = ListComponentModel::new("units", Some(s("t")));
    assert!(m.loading);
    assert!(!m.saving);
    assert!(m.error.is_none());
    assert!(m.data.is_empty());
    assert_eq!(m.form_action, "units");
}

#[test]
fn set_and_clear_error() {
    let mut m: ListComponentModel<LookupData> = ListComponentModel::new("units", None);
    m.set_error(s("boom"));
    assert_eq!(m.error.as_deref(), Some("boom"));
    m.clear_error();
    assert!(m.error.is_none());
}

#[test]
fn load_without_token_redirects_to_login() {
    let mut m: ListComponentModel<LookupData> = ListComponentModel::new("units", None);
    match m.begin_load("/login") {
        LoadStart::Redirect(n) => {
            assert_eq!(n.to, "/login");
            assert!(n.replace);
            assert!(n.scroll);
        }
        LoadStart::Fetch { .. } => panic!("expected a redirect"),
    }
    assert_eq!(m.error.as_deref(), Some("Please log in first"));
}

#[test]
fn load_with_token_fetches_and_sorts() {
    let mut m: ListComponentModel<LookupData> = ListComponentModel::new("units", Some(s("tok")));
    m.loading = false;
    match m.begin_load("/login") {
        LoadStart::Fetch { token, path } => {
            assert_eq!(token, "tok");
            assert_eq!(path, "units");
        }
        LoadStart::Redirect(_) => panic!("expected a fetch"),
    }
    assert!(m.loading);
    let nav = m.finish_load(Ok(vec![row("1", "kg"), row("2", "g")]), false, "/login");
    assert!(nav.is_none());
    assert!(!m.loading);
    assert_eq!(ids(&m.data), vec!["2", "1"]);
}

#[test]
fn load_keeps_caller_order_when_caller_sorted() {
    let mut m: ListComponentModel<LookupData> = ListComponentModel::new("units", Some(s("tok")));
    m.finish_load(Ok(vec![row("1", "kg"), row("2", "g")]), true, "/login");
    assert_eq!(ids(&m.data), vec!["1", "2"]);
}

#[test]
fn load_unauthorized_redirects_other_errors_show() {
    let mut m: ListComponentModel<LookupData> = ListComponentModel::new("units", Some(s("tok")));
    let nav = m.finish_load(Err(ApiError::new(s("expired"), 401)), false, "/login");
    assert_eq!(nav.unwrap().to, "/login");
    assert!(m.error.is_none());
    assert!(!m.loading);
    let nav = m.finish_load(Err(ApiError::new(s("down"), 503)), false, "/login");
    assert!(nav.is_none());
    assert_eq!(m.error.as_deref(), Some("[503] down"));
}

#[test]
fn persist_new_record_posts_to_collection() {
    let mut m: ListComponentModel<LookupData> = ListComponentModel::new("units", Some(s("tok")));
    let form = LookupDataRequest::new();
    let req = m.begin_persist(&form.id).unwrap();
    assert!(matches!(req.method, HttpMethod::POST));
    assert_eq!(req.path, "units");
    assert_eq!(req.token, "tok");
    assert_eq!(req.form_id, "");
    assert!(m.saving);
}

#[test]
fn persist_existing_record_puts_to_item() {
    let mut m: ListComponentModel<LookupData> = ListComponentModel::new("units", Some(s("tok")));
    let form = LookupDataRequest::from_data(data("7", "kg"));
    let req = m.begin_persist(&form.id).unwrap();
    assert!(matches!(req.method, HttpMethod::PUT));
    assert_eq!(req.path, "units/7");
    assert_eq!(req.form_id, "7");
}

#[test]
fn persist_without_token_is_not_authorized() {
    let mut m: ListComponentModel<LookupData> = ListComponentModel::new("units", None);
    assert!(m.begin_persist("").is_none());
    assert_eq!(m.error.as_deref(), Some("Not authorized"));
    assert!(!m.saving);
}

#[test]
fn finish_persist_updates_rows() {
    let mut m: ListComponentModel<LookupData> = ListComponentModel::new("units", Some(s("tok")));
    m.data = vec![row("1", "b"), row("2", "d")];
    m.saving = true;
    assert!(m.finish_persist("", Ok(row("3", "c"))));
    assert!(!m.saving);
    assert_eq!(ids(&m.data), vec!["1", "3", "2"]);
    assert!(m.finish_persist("2", Ok(row("2", "a"))));
    assert_eq!(ids(&m.data), vec!["1", "3", "2"]);
    assert_eq!(m.data[2].name, "a");
    assert!(!m.finish_persist("1", Err(ApiError::new(s("conflict"), 409))));
    assert_eq!(m.error.as_deref(), Some("[409] conflict"));
    assert_eq!(m.data.len(), 3);
}

#[test]
fn delete_flow() {
    let mut m: ListComponentModel<LookupData> = ListComponentModel::new("units", None);
    let req = m.begin_delete("4");
    assert_eq!(req.token, "");
    assert_eq!(req.path, "units/4");
    m.data = vec![row("4", "a"), row("5", "b")];
    m.set_error(s("old"));
    m.finish_delete("4", Ok(()));
    assert!(m.error.is_none());
    assert_eq!(ids(&m.data), vec!["5"]);
    m.finish_delete("5", Err(ApiError::new(s("gone"), 404)));
    assert_eq!(m.error.as_deref(), Some("[404] gone"));
    assert_eq!(ids(&m.data), vec!["5"]);
}

#[test]
fn update_record_request_paths_and_auth() {
    let req = update_record_request("lists", "12", Some(s("t"))).ok().unwrap();
    assert_eq!(req.path, "lists/12");
    assert_eq!(req.token, "t");
    assert!(matches!(req.method, HttpMethod::PUT));
    let err = update_record_request("lists", "12", None).err().unwrap();
    assert_eq!(err.status, 401);
    assert_eq!(err.message, "Not authorized");
}

#[test]
fn resource_request_needs_token() {
    let path = ResourcePath::new("lists").id("3").child("permissions");
    let req = resource_request(&path, Some(s("t"))).ok().unwrap();
    assert_eq!(req.path, "lists/3/permissions");
    assert_eq!(resource_request(&path, None).err().unwrap(), "Not authenticated");
}

#[test]
fn resource_update_is_a_put_with_the_token() {
    let path = ResourcePath::new("lists").id("3");
    let req = resource_update_request(&path, Some(s("t"))).ok().unwrap();
    assert!(matches!(req.method, HttpMethod::PUT));
    assert_eq!(req.token, "t");
    assert_eq!(req.path, "lists/3");
    assert_eq!(resource_update_request(&path, None).err().unwrap(), "Not authenticated");
}

#[test]
fn reference_list_prefers_cache() {
    let cached = vec![data("1", "kg")];
    match reference_list_step(cached, false, None) {
        ReferenceListStep::UseCached(rows) => assert_eq!(rows.len(), 1),
        _ => panic!("expected the cache"),
    }
    match reference_list_step(vec![data("1", "kg")], true, Some(s("t"))) {
        ReferenceListStep::Fetch(t) => assert_eq!(t, "t"),
        _ => panic!("expected a fetch"),
    }
    assert!(matches!(reference_list_step(Vec::new(), false, None), ReferenceListStep::SkipUnauthenticated));
    assert!(matches!(reference_list_step(Vec::new(), false, Some(s("t"))), ReferenceListStep::Fetch(_)));
}

#[test]
fn lookup_display_resolves_names() {
    let options = vec![data("1", "Kilogram"), data("2", "Gram"), data("2", "Other")];
    assert_eq!(lookup_display_name(&options, "2"), "Gram");
    assert_eq!(lookup_display_name(&options, "9"), "9");
}

#[test]
fn navigation_helpers() {
    let n = navigate("/lists");
    assert_eq!(n.to, "/lists");
    assert!(n.replace && n.scroll);
    let p = navigate_push("/lists");
    assert!(!p.replace && p.scroll);
    assert_eq!(navigate_up_target("/stores", Some(s("8"))), "/stores/8");
    assert_eq!(navigate_up_target("/stores", None), "/stores");
}

#[test]
fn lookup_request_constructors() {
    let blank = LookupDataRequest::new();
    assert!(blank.id.is_empty() && blank.name.is_empty() && blank.description.is_none());
    let data = LookupData { id: s("1"), name: s("kg"), description: Some(s("mass")) };
    let req = LookupDataRequest::from_data(data);
    assert_eq!((req.id.as_str(), req.name.as_str(), req.description.as_deref()), ("1", "kg", Some("mass")));
}

#[test]
fn deleting_a_new_record_undoes_its_save() {
    let rows = vec![row("1", "c"), row("2", "a")];
    let saved = apply_saved_row(rows, "", row("3", "b"));
    assert_eq!(ids(&saved), vec!["2", "3", "1"]);
    let mut after = saved;
    apply_deleted_row(&mut after, "3");
    let mut left = ids(&after);
    left.sort();
    assert_eq!(left, vec!["1", "2"]);
}

#[test]
fn saving_twice_keeps_one_copy() {
    let rows = vec![row("1", "c")];
    let once = apply_saved_row(rows, "", row("2", "a"));
    let twice = apply_saved_row(once, "2", row("2", "b"));
    assert_eq!(ids(&twice), vec!["2", "1"]);
    assert_eq!(twice[0].name, "b");
}

#[test]
fn resource_load_clears_a_stale_error_and_stores_rows() {
    let mut state = ResourceLoad { loading: false, error: Some(s("[500] old")), data: vec![s("a")] };
    state.begin();
    assert!(state.loading);
    assert!(state.error.is_none());
    assert_eq!(state.data, vec![s("a")]);
    state.finish(Ok(vec![s("b"), s("c")]));
    assert!(!state.loading);
    assert!(state.error.is_none());
    assert_eq!(state.data, vec![s("b"), s("c")]);
}

#[test]
fn resource_load_failure_keeps_rows_and_shows_error() {
    let mut state: ResourceLoad<Option<u32>> = ResourceLoad { loading: false, error: None, data: Some(4) };
    state.begin();
    state.finish(Err(ApiError::new(s("gone"), 404)));
    assert!(!state.loading);
    assert_eq!(state.error.as_deref(), Some("[404] gone"));
    assert_eq!(state.data, Some(4));
}
