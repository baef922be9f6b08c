use weld::errors::ResolveError;
use weld::uri::{parse_uri, wapm_url, ResolvableUri};

#[test]
fn parse_wapm_reference() {
    let r = parse_uri("wapm://hotg-ai/softmax?version=0.12.0");
    match r {
        Ok(ResolvableUri::PackageRef { namespace, name, version }) => {
            assert_eq!(namespace, "hotg-ai");
            assert_eq!(name, "softmax");
            assert_eq!(version, "0.12.0");
        }
        other => panic!("expected a package reference, got {:?}", describe(&other)),
    }
}

#[test]
fn wapm_reference_builds_deterministic_cdn_url() {
    let url = wapm_url("hotg-ai", "softmax", "0.12.0");
    assert_eq!(
        url,
        "https://registry-cdn.wapm.io/contents/hotg-ai/softmax/0.12.0/softmax.wasm"
    );
}

#[test]
fn parse_wapm_single_segment_is_malformed() {
    let r = parse_uri("wapm://missing-version-param");
    match r {
        Err(ResolveError::MalformedReference(path)) => {
            assert_eq!(path, "missing-version-param");
        }
        other => panic!("expected a malformed reference, got {:?}", describe(&other)),
    }
}

#[test]
fn parse_wapm_without_version_is_malformed() {
    let r = parse_uri("wapm://hotg-ai/softmax");
    match r {
        Err(ResolveError::MalformedReference(msg)) => {
            assert_eq!(msg, "No version specified");
        }
        other => panic!("expected a malformed reference, got {:?}", describe(&other)),
    }
}

#[test]
fn parse_wapm_takes_first_version_parameter() {
    let r = parse_uri("wapm://hotg-ai/softmax?foo=1&version=2.0&version=3.0");
    match r {
        Ok(ResolvableUri::PackageRef { version, .. }) => assert_eq!(version, "2.0"),
        other => panic!("expected a package reference, got {:?}", describe(&other)),
    }
}

#[test]
fn parse_file_uri() {
    let r = parse_uri("file:///tmp/x.bin");
    match r {
        Ok(ResolvableUri::LocalFile(path)) => assert_eq!(path, "/tmp/x.bin"),
        other => panic!("expected a local file, got {:?}", describe(&other)),
    }
}

#[test]
fn parse_schemeless_path() {
    let r = parse_uri("data/model.tflite");
    match r {
        Ok(ResolvableUri::LocalFile(path)) => assert_eq!(path, "data/model.tflite"),
        other => panic!("expected a local file, got {:?}", describe(&other)),
    }
}

#[test]
fn parse_file_uri_collapses_duplicate_slashes() {
    let r = parse_uri("file:///tmp//x.bin");
    match r {
        Ok(ResolvableUri::LocalFile(path)) => assert_eq!(path, "/tmp/x.bin"),
        other => panic!("expected a local file, got {:?}", describe(&other)),
    }
}

#[test]
fn parse_http_url_is_kept_literally() {
    let r = parse_uri("https://example.com/a.wasm?x=1");
    match r {
        Ok(ResolvableUri::Http(url)) => assert_eq!(url, "https://example.com/a.wasm?x=1"),
        other => panic!("expected a remote URL, got {:?}", describe(&other)),
    }
}

#[test]
fn parse_unknown_scheme_is_refused() {
    let r = parse_uri("ftp://example.com/a.wasm");
    match r {
        Err(ResolveError::UnsupportedScheme(scheme)) => assert_eq!(scheme, "ftp"),
        other => panic!("expected an unsupported scheme, got {:?}", describe(&other)),
    }
}

#[test]
fn describe_names_each_error_kind() {
    assert_eq!(
        ResolveError::UnsupportedScheme(String::from("ftp")).describe(),
        "unsupported scheme: ftp"
    );
    assert_eq!(
        ResolveError::MalformedReference(String::from("p")).describe(),
        "malformed reference: p"
    );
    assert_eq!(
        ResolveError::Transport(String::from("t")).describe(),
        "transport failure: t"
    );
    assert_eq!(ResolveError::NotFound(String::from("n")).describe(), "not found: n");
    assert_eq!(
        ResolveError::RegistryError(String::from("r")).describe(),
        "registry error: r"
    );
    assert_eq!(
        ResolveError::CatalogError(String::from("c")).describe(),
        "catalog error: c"
    );
}

fn describe(r: &Result<ResolvableUri, ResolveError>) -> String {
    match r {
        Ok(ResolvableUri::LocalFile(p)) => format!("local file {}", p),
        Ok(ResolvableUri::Http(u)) => format!("remote url {}", u),
        Ok(ResolvableUri::PackageRef { namespace, name, version }) => {
            format!("package {}/{} at {}", namespace, name, version)
        }
        Err(e) => e.describe(),
    }
}
