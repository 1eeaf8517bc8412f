use mcpm::install::mod_file_path;
use mcpm::modrinth::{percent_encode, project_url, search_url, versions_url, API_URL, USER_AGENT};

#[test]
fn api_url_and_user_agent_are_fixed() {
    assert_eq!(API_URL, "https://api.modrinth.com/v2/");
    assert_eq!(USER_AGENT, "User-Agent: Handschrift/mcpm/0.2.0");
}

#[test]
fn search_url_has_query_limit_and_facets() {
    let url = search_url(&String::from("sodium"), 20);
    assert_eq!(
        url,
        "https://api.modrinth.com/v2/search?query=sodium&limit=20&facets=[[\"project_type:mod\"]]"
    );
}

#[test]
fn search_url_percent_encodes_the_query() {
    let url = search_url(&String::from("my mod/ä"), 5);
    assert_eq!(
        url,
        "https://api.modrinth.com/v2/search?query=my%20mod%2F%C3%A4&limit=5&facets=[[\"project_type:mod\"]]"
    );
}

#[test]
fn project_url_percent_encodes_the_slug() {
    assert_eq!(
        project_url(&String::from("fabric-api")),
        "https://api.modrinth.com/v2/project/fabric-api"
    );
    assert_eq!(
        project_url(&String::from("a b")),
        "https://api.modrinth.com/v2/project/a%20b"
    );
}

#[test]
fn versions_url_joins_quoted_ids() {
    let ids = vec![String::from("AAA"), String::from("BBB"), String::from("CCC")];
    assert_eq!(
        versions_url(&ids),
        "https://api.modrinth.com/v2/versions?ids=[\"AAA\",\"BBB\",\"CCC\"]"
    );
    let one = vec![String::from("AAA")];
    assert_eq!(
        versions_url(&one),
        "https://api.modrinth.com/v2/versions?ids=[\"AAA\"]"
    );
}

#[test]
fn percent_encode_keeps_unreserved_bytes() {
    assert_eq!(percent_encode(&String::from("Abz09-._~")), "Abz09-._~");
    assert_eq!(percent_encode(&String::from("a b+c%")), "a%20b%2Bc%25");
}

#[test]
fn search_hits_format_as_one_line() {
    let hit = mcpm::modrinth::SearchResultItem {
        slug: String::from("sodium"),
        author: String::from("jellysquid"),
        title: String::from("Sodium"),
        description: String::from("A rendering engine"),
        latest_version: String::from("0.5.8"),
    };
    assert_eq!(
        hit.display_line(),
        "Sodium\tA rendering engine\tVersion: 0.5.8\t (slug: sodium)"
    );
}

#[test]
fn mod_files_live_in_the_mods_directory() {
    assert_eq!(mod_file_path(&String::from("foo-1.0.jar")), "mods/foo-1.0.jar");
}
