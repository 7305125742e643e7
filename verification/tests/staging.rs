use lernie::prompt::dispatch::staging::staging_path_for;

#[test]
fn staging_path_sits_beside_the_response_file() {
    let resp = "/w/steps/id/001/response.json";
    assert_eq!(staging_path_for(resp), "/w/steps/id/001/staging.json");
}
