use cargo_screeps::upload::{
    binary_content, budget_level, read_response, response_outcome, upload_kind, upload_url, BudgetLevel,
    ModuleContent, ResponseBody, UploadError, UploadKind, UploadModule, UploadPlan,
    CODE_SIZE_LIMIT,
};

const MIB: u64 = 1024 * 1024;

#[test]
fn budget_exactly_at_limit_is_not_over() {
    // The whole budget is more than nine tenths of it, so this warns as near.
    assert_eq!(CODE_SIZE_LIMIT, 5 * MIB);
    assert_eq!(budget_level(5 * MIB), BudgetLevel::NearLimit);
}

#[test]
fn budget_near_limit() {
    // 4.6 MiB, about 92% of the budget.
    assert_eq!(budget_level(4_823_450), BudgetLevel::NearLimit);
}

#[test]
fn budget_over_limit() {
    // 5.1 MiB.
    assert_eq!(budget_level(5_347_738), BudgetLevel::OverLimit);
}

#[test]
fn budget_edges() {
    assert_eq!(budget_level(0), BudgetLevel::Within);
    assert_eq!(budget_level(9 * 5 * MIB / 10), BudgetLevel::Within);
    assert_eq!(budget_level(9 * 5 * MIB / 10 + 1), BudgetLevel::NearLimit);
    assert_eq!(budget_level(5 * MIB + 1), BudgetLevel::OverLimit);
    assert_eq!(budget_level(u64::MAX), BudgetLevel::OverLimit);
}

#[test]
fn plan_sums_sizes_and_keys_by_name() {
    let mut plan = UploadPlan::new();
    plan.add("main".to_string(), ModuleContent::Text("abc".to_string()));
    plan.add("bot_bg".to_string(), binary_content(&[1, 2, 3]));
    assert_eq!(plan.total_chars, 3 + 4);
    assert_eq!(plan.modules.len(), 2);
    assert_eq!(
        plan.modules[1],
        UploadModule { name: "bot_bg".to_string(), content: ModuleContent::Binary("AQID".to_string()) }
    );
    plan.add("main".to_string(), ModuleContent::Text("zz".to_string()));
    assert_eq!(plan.modules.len(), 2);
    assert_eq!(plan.modules[0].content, ModuleContent::Text("zz".to_string()));
    assert_eq!(plan.total_chars, 9);
    assert_eq!(plan.budget(), BudgetLevel::Within);
}

#[test]
fn plan_over_budget_is_only_a_level() {
    let mut plan = UploadPlan::new();
    plan.add("big".to_string(), ModuleContent::Text("x".repeat(5_347_738)));
    assert_eq!(plan.budget(), BudgetLevel::OverLimit);
    assert_eq!(plan.modules.len(), 1);
}

#[test]
fn binary_content_is_base64() {
    assert_eq!(binary_content(&[]), ModuleContent::Binary(String::new()));
    assert_eq!(binary_content(b"hello"), ModuleContent::Binary("aGVsbG8=".to_string()));
}

#[test]
fn upload_kinds() {
    assert_eq!(upload_kind("main.js"), Some(UploadKind::Text));
    assert_eq!(upload_kind("bot_bg.wasm"), Some(UploadKind::Binary));
    assert_eq!(upload_kind("main.mjs"), Some(UploadKind::Text));
    assert_eq!(upload_kind("main.jsorig"), None);
    assert_eq!(upload_kind("README"), None);
}

#[test]
fn response_success() {
    assert_eq!(response_outcome(200, "{\"ok\":1}".to_string(), ResponseBody::Clean), Ok(()));
}

#[test]
fn response_bad_status() {
    assert_eq!(
        response_outcome(401, "Unauthorized".to_string(), ResponseBody::Malformed),
        Err(UploadError::Status { status: 401, body: "Unauthorized".to_string() })
    );
}

#[test]
fn response_not_json() {
    assert_eq!(
        response_outcome(200, "OK".to_string(), ResponseBody::Malformed),
        Err(UploadError::Malformed { body: "OK".to_string() })
    );
}

#[test]
fn response_error_field() {
    let body = "{\"error\":\"branch not found\"}".to_string();
    assert_eq!(
        response_outcome(200, body.clone(), ResponseBody::Error("\"branch not found\"".to_string())),
        Err(UploadError::Remote { error: "\"branch not found\"".to_string(), body })
    );
}

#[test]
fn url_forms() {
    assert_eq!(upload_url(true, "screeps.com", 443, &None), "https://screeps.com:443/api/user/code");
    assert_eq!(upload_url(false, "localhost", 0, &Some("ptr".to_string())), "http://localhost:0/ptr/api/user/code");
    assert_eq!(upload_url(false, "h", 65535, &None), "http://h:65535/api/user/code");
}

#[test]
fn reading_responses() {
    assert_eq!(read_response("{\"ok\":1}"), ResponseBody::Clean);
    assert_eq!(read_response("[1, 2]"), ResponseBody::Clean);
    assert_eq!(read_response("not json"), ResponseBody::Malformed);
    assert_eq!(read_response(""), ResponseBody::Malformed);
    assert_eq!(
        read_response("{\"ok\":0,\"error\":\"branch not found\"}"),
        ResponseBody::Error("\"branch not found\"".to_string())
    );
}
