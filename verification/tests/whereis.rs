use cargo_whereis::{where_is, Error, Graph, Location, Member, Package, SourceKind};

fn member(name: &str, dir: Option<&str>) -> Member {
    Member {
        name: name.to_owned(),
        manifest_dir: dir.map(str::to_owned),
    }
}

fn package(name: &str, source: Option<SourceKind>) -> Package {
    Package {
        name: name.to_owned(),
        source,
    }
}

fn sample_graph() -> Graph {
    Graph {
        members: vec![member("app", Some("/ws/app"))],
        packages: vec![
            package("app", Some(SourceKind::CratesIo)),
            package("serde", Some(SourceKind::CratesIo)),
            package("sibling", Some(SourceKind::Other)),
            package("homeless", None),
        ],
    }
}

#[test]
fn member_resolves_to_its_directory() {
    // "app" is also a package sourced from the registry: membership wins.
    let r = where_is("app", &sample_graph());
    assert_eq!(r, Ok(Location::Local("/ws/app".to_owned())));
}

#[test]
fn member_without_canonical_dir_gets_root_sentinel() {
    let g = Graph {
        members: vec![member("app", None)],
        packages: vec![],
    };
    assert_eq!(where_is("app", &g), Ok(Location::Local("/".to_owned())));
}

#[test]
fn first_member_of_a_name_wins() {
    let g = Graph {
        members: vec![member("app", Some("/ws/first")), member("app", Some("/ws/second"))],
        packages: vec![],
    };
    assert_eq!(where_is("app", &g), Ok(Location::Local("/ws/first".to_owned())));
}

#[test]
fn registry_package_resolves_to_registry_page() {
    let r = where_is("serde", &sample_graph());
    assert_eq!(
        r,
        Ok(Location::Remote("https://crates.io/crates/serde".to_owned()))
    );
}

#[test]
fn package_without_source_fails_no_source() {
    assert_eq!(where_is("homeless", &sample_graph()), Err(Error::NoSource));
}

#[test]
fn unknown_registry_fails_with_the_name() {
    assert_eq!(
        where_is("sibling", &sample_graph()),
        Err(Error::UnknownRegistry("sibling".to_owned()))
    );
}

#[test]
fn first_package_of_a_name_decides() {
    let g = Graph {
        members: vec![],
        packages: vec![
            package("dep", Some(SourceKind::Other)),
            package("dep", Some(SourceKind::CratesIo)),
        ],
    };
    assert_eq!(
        where_is("dep", &g),
        Err(Error::UnknownRegistry("dep".to_owned()))
    );
}

#[test]
fn absent_name_fails_not_found() {
    assert_eq!(
        where_is("nope", &sample_graph()),
        Err(Error::NotFound("nope".to_owned()))
    );
}

#[test]
fn empty_name_fails_not_found() {
    assert_eq!(
        where_is("", &sample_graph()),
        Err(Error::NotFound(String::new()))
    );
}

#[test]
fn empty_graph_finds_nothing() {
    let g = Graph { members: vec![], packages: vec![] };
    assert_eq!(where_is("serde", &g), Err(Error::NotFound("serde".to_owned())));
}

#[test]
fn unjoinable_name_fails_url() {
    let g = Graph {
        members: vec![],
        packages: vec![package("//", Some(SourceKind::CratesIo))],
    };
    assert_eq!(where_is("//", &g), Err(Error::Url));
}

#[test]
fn end_to_end_workspace() {
    let g = sample_graph();
    assert_eq!(
        where_is("app", &g),
        Ok(Location::Local("/ws/app".to_owned()))
    );
    assert_eq!(
        where_is("serde", &g),
        Ok(Location::Remote("https://crates.io/crates/serde".to_owned()))
    );
    assert_eq!(where_is("nope", &g), Err(Error::NotFound("nope".to_owned())));
}

#[test]
fn show_local_absolute() {
    let loc = Location::Local("/ws/app".to_owned());
    assert_eq!(loc.show(false, false, None), Ok("/ws/app".to_owned()));
}

#[test]
fn show_local_relative_to_enclosing_dir() {
    let loc = Location::Local("/a/b/c".to_owned());
    assert_eq!(loc.show(true, false, Some("/a/b")), Ok("c".to_owned()));
}

#[test]
fn show_local_relative_to_sibling_dir() {
    let loc = Location::Local("/foo/bar/baz".to_owned());
    assert_eq!(
        loc.show(true, false, Some("/foo/bar/quux")),
        Ok("../baz".to_owned())
    );
}

#[test]
fn show_current_dir_relative_is_dot() {
    let loc = Location::Local("/ws/app".to_owned());
    assert_eq!(loc.show(true, false, Some("/ws/app")), Ok(".".to_owned()));
}

#[test]
fn show_relative_without_cwd_fails_io() {
    let loc = Location::Local("/ws/app".to_owned());
    assert_eq!(loc.show(true, false, None), Err(Error::Io));
}

#[test]
fn show_relative_across_kinds_fails_compute_relative() {
    // No relative path leads from an absolute directory to a relative one.
    let loc = Location::Local("ws/app".to_owned());
    assert_eq!(loc.show(true, false, Some("/elsewhere")), Err(Error::ComputeRelative));
}

#[test]
fn show_local_as_directory_url() {
    let loc = Location::Local("/ws/app".to_owned());
    assert_eq!(loc.show(false, true, None), Ok("file:///ws/app/".to_owned()));
}

#[test]
fn show_relative_dir_as_url_fails_directory_url() {
    let loc = Location::Local("ws/app".to_owned());
    assert_eq!(
        loc.show(false, true, None),
        Err(Error::DirectoryUrl("ws/app".to_owned()))
    );
}

#[test]
fn show_remote_plain_always_fails() {
    let loc = Location::Remote("https://crates.io/crates/serde".to_owned());
    assert_eq!(loc.show(false, false, None), Err(Error::RemoteButNotUrl));
    assert_eq!(loc.show(true, false, None), Err(Error::RemoteButNotUrl));
    assert_eq!(loc.show(true, false, Some("/ws")), Err(Error::RemoteButNotUrl));
}

#[test]
fn show_remote_as_url_returns_the_url() {
    let loc = Location::Remote("https://crates.io/crates/serde".to_owned());
    let expected = Ok("https://crates.io/crates/serde".to_owned());
    assert_eq!(loc.show(false, true, None), expected);
    assert_eq!(loc.show(true, true, None), expected);
    assert_eq!(loc.show(true, true, Some("/ws")), expected);
}

#[test]
fn show_twice_agrees() {
    let local = Location::Local("/ws/app".to_owned());
    let remote = Location::Remote("https://crates.io/crates/serde".to_owned());
    assert_eq!(local.show(true, false, Some("/ws")), local.show(true, false, Some("/ws")));
    assert_eq!(local.show(false, true, None), local.show(false, true, None));
    assert_eq!(remote.show(false, false, None), remote.show(false, false, None));
    assert_eq!(remote.show(false, true, None), remote.show(false, true, None));
}

#[test]
fn force_renders_remote_as_url() {
    let remote = Location::Remote("https://crates.io/crates/serde".to_owned());
    assert_eq!(
        remote.show_forced(false, false, true, None),
        remote.show(false, true, None)
    );
    assert_eq!(
        remote.show_forced(false, false, false, None),
        Err(Error::RemoteButNotUrl)
    );
}

#[test]
fn force_does_not_mask_other_errors() {
    let local = Location::Local("/ws/app".to_owned());
    assert_eq!(local.show_forced(true, false, true, None), Err(Error::Io));
    let relative = Location::Local("ws/app".to_owned());
    assert_eq!(
        relative.show_forced(false, true, true, None),
        Err(Error::DirectoryUrl("ws/app".to_owned()))
    );
}

#[test]
fn force_leaves_successful_renderings_alone() {
    let local = Location::Local("/ws/app".to_owned());
    assert_eq!(local.show_forced(false, false, true, None), Ok("/ws/app".to_owned()));
}
