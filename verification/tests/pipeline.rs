use qpage::error::PipelineError;
use qpage::model::{AppConfig, Config, JenkinsConfig};
use qpage::{execute_locator, execute_url};

fn test_config() -> Config {
    Config {
        jenkins: JenkinsConfig {
            jenkins_server_url: "http://jenkins.local".to_string(),
            jenkins_user_name: "operator".to_string(),
            jenkins_api_token: "SECRET-REDACTED".to_string(),
            file_server_url: "http://files.local".to_string(),
            replace_file_parent_dir: "/tmp/replace".to_string(),
        },
        apps: vec![AppConfig {
            exploed_war_path: "/srv/tomcat/storefront".to_string(),
            home_path: "/home/dev/storefront".to_string(),
            name: "storefront".to_string(),
        }],
    }
}

fn archive_with_one_file(path: &str, data: &[u8]) -> Vec<u8> {
    let mut builder = tar::Builder::new(Vec::new());
    let mut header = tar::Header::new_gnu();
    header.set_entry_type(tar::EntryType::Regular);
    header.set_size(data.len() as u64);
    header.set_mode(0o644);
    header.set_cksum();
    builder.append_data(&mut header, path, data).unwrap();
    let tar_bytes = builder.into_inner().unwrap();
    let mut encoder = flate2::write::GzEncoder::new(Vec::new(), flate2::Compression::default());
    std::io::Write::write_all(&mut encoder, &tar_bytes).unwrap();
    encoder.finish().unwrap()
}

#[test]
fn end_to_end_locate_unpack_and_plan() {
    let listing = "<html><body><pre>\
<a href=\"http://files.local/qince/qince-h5-app-v7.1.0-2024.tar.gz\">qince-h5-app-v7.1.0-2024.tar.gz</a>\
<a href=\"http://files.local/qince/qince-web-app-v7.1.0-2024.tar.gz\">qince-web-app-v7.1.0-2024.tar.gz</a>\
<a href=\"http://files.local/qince/qince-h5-app-v7.0.0-2023.tar.gz\">qince-h5-app-v7.0.0-2023.tar.gz</a>\
</pre></body></html>";

    let url = execute_locator(listing, "h5", "app", "v7.1.0").unwrap();
    assert_eq!(url, "http://files.local/qince/qince-h5-app-v7.1.0-2024.tar.gz");

    let archive = archive_with_one_file("qince-h5-app-v7.1.0-2024.html", b"<html>h5</html>");
    let config = test_config();
    let plan = execute_url(&url, &archive, "storefront", &config).unwrap();

    assert_eq!(plan.archive_name, "qince-h5-app-v7.1.0-2024.tar.gz");
    assert_eq!(plan.files.len(), 1);
    assert_eq!(plan.files[0].name, "qince-h5-app-v7.1.0-2024.html");
    assert_eq!(plan.files[0].data, b"<html>h5</html>".to_vec());

    assert_eq!(plan.copies.len(), 2);
    assert_eq!(plan.copies[0].file_name, "qince-h5-app-v7.1.0-2024.html");
    assert_eq!(
        plan.copies[0].dest_path,
        "/home/dev/storefront/src/main/webapp/sysapp/h5/qince-h5-app-v7.1.0-2024.html"
    );
    assert_eq!(
        plan.copies[1].dest_path,
        "/srv/tomcat/storefront/sysapp/h5/qince-h5-app-v7.1.0-2024.html"
    );
}

#[test]
fn execute_url_fails_with_config_error_before_any_copy() {
    let archive = archive_with_one_file("qince-h5-app-v7.1.0-2024.html", b"x");
    let config = test_config();
    let r = execute_url("http://x/a.tar.gz", &archive, "unknown", &config);
    match r {
        Err(e) => assert_eq!(e, PipelineError::ConfigError),
        Ok(_) => panic!("expected ConfigError for an unknown app"),
    }
}

#[test]
fn execute_url_fails_with_archive_error_on_bad_bytes() {
    let config = test_config();
    let r = execute_url("http://x/a.tar.gz", b"not an archive", "storefront", &config);
    match r {
        Err(e) => assert_eq!(e, PipelineError::ArchiveError),
        Ok(_) => panic!("expected ArchiveError for malformed bytes"),
    }
}

#[test]
fn execute_url_derives_archive_name_from_url() {
    let archive = archive_with_one_file("page.html", b"x");
    let config = test_config();
    let plan = execute_url(
        "http://files.local/qince/bundle-web-v1.tar.gz",
        &archive,
        "storefront",
        &config,
    )
    .unwrap();
    assert_eq!(plan.archive_name, "bundle-web-v1.tar.gz");
    assert_eq!(
        plan.copies[0].dest_path,
        "/home/dev/storefront/src/main/webapp/sysapp/react/web/page.html"
    );
}
