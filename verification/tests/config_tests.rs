use reliost::{
    create_symbol_manager_config, parse_optional_size, BreakpadSymbolSettings, DownloadUrlTable,
    Environment, ServerSettings, Settings, SymbolDirective, SymbolSettings, VersionError,
    WindowsSymbolSettings,
};

#[test]
fn environment_names() {
    assert_eq!(Environment::Local.as_str(), "local");
    assert_eq!(Environment::Production.as_str(), "production");
}

#[test]
fn environment_parses_ignoring_ascii_case() {
    assert_eq!(Environment::try_from("local".to_string()).unwrap(), Environment::Local);
    assert_eq!(Environment::try_from("LOCAL".to_string()).unwrap(), Environment::Local);
    assert_eq!(Environment::try_from("Production".to_string()).unwrap(), Environment::Production);
    assert_eq!(Environment::try_from("pRoDuCtIoN".to_string()).unwrap(), Environment::Production);
}

#[test]
fn environment_rejects_unknown_names() {
    let err = Environment::try_from("staging".to_string()).unwrap_err();
    assert_eq!(
        err,
        "staging is not a supported environment. Use either `local` or `production`."
    );
    assert!(Environment::try_from("".to_string()).is_err());
    assert!(Environment::try_from("local ".to_string()).is_err());
}

#[test]
fn optional_size_parsing() {
    assert_eq!(parse_optional_size(None), Ok(None));
    assert_eq!(parse_optional_size(Some("300".to_string())), Ok(Some(300)));
    assert_eq!(
        parse_optional_size(Some("10 MiB".to_string())),
        Ok(Some(10 * 1024 * 1024))
    );
    assert_eq!(
        parse_optional_size(Some("not a size".to_string())),
        Err("not a size".to_string())
    );
}

#[test]
fn pathological_size_strings_are_rejected_without_panicking() {
    // digit streams that would drive the size parser's mantissa
    // rounding past u64::MAX are refused up front
    assert_eq!(
        parse_optional_size(Some("184467440737095516155".to_string())),
        Err("184467440737095516155".to_string())
    );
    assert_eq!(
        parse_optional_size(Some("18446744073709551615.5".to_string())),
        Err("18446744073709551615.5".to_string())
    );
    assert_eq!(
        parse_optional_size(Some("18_446_744_073_709_551_615_5".to_string())),
        Err("18_446_744_073_709_551_615_5".to_string())
    );
    // u64::MAX itself still parses, with or without separators
    assert_eq!(
        parse_optional_size(Some("18446744073709551615".to_string())),
        Ok(Some(u64::MAX))
    );
    assert_eq!(
        parse_optional_size(Some("18_446_744_073_709_551_615".to_string())),
        Ok(Some(u64::MAX))
    );
    // an overflow the parser reports itself still comes back as an error
    assert_eq!(
        parse_optional_size(Some("18446744073709551616".to_string())),
        Err("18446744073709551616".to_string())
    );
}

#[test]
fn version_error_variants_and_messages() {
    let not_found = VersionError::from_kind(true, "ignored".to_string());
    assert!(matches!(not_found, VersionError::VersionFileNotFound));
    assert_eq!(not_found.message(), "The version file could not be found.");

    let other = VersionError::from_kind(false, "permission denied".to_string());
    assert!(matches!(&other, VersionError::Other { error } if error == "permission denied"));
    assert_eq!(
        other.message(),
        "An error occurred while retrieving the version file: permission denied"
    );
}

fn settings_with(symbols: Option<SymbolSettings>) -> Settings {
    Settings {
        server: ServerSettings { host: "127.0.0.1".to_string(), port: 8000 },
        symbols,
        quota: None,
    }
}

#[test]
fn no_symbols_section_gives_no_directives() {
    let directives = create_symbol_manager_config(&settings_with(None));
    assert!(directives.is_empty());
}

#[test]
fn breakpad_without_servers_serves_the_cache_dir() {
    let settings = settings_with(Some(SymbolSettings {
        breakpad: Some(BreakpadSymbolSettings {
            servers: vec![],
            cache_dir: "/sym/breakpad".to_string(),
            symindex_dir: Some("/sym/symindex".to_string()),
        }),
        windows: None,
    }));
    let directives = create_symbol_manager_config(&settings);
    assert_eq!(directives.len(), 2);
    assert!(
        matches!(&directives[0], SymbolDirective::BreakpadSymbolDir { path } if path == "/sym/breakpad")
    );
    assert!(
        matches!(&directives[1], SymbolDirective::BreakpadSymindexDir { path } if path == "/sym/symindex")
    );
}

#[test]
fn servers_give_one_directive_each_in_order() {
    let settings = settings_with(Some(SymbolSettings {
        breakpad: Some(BreakpadSymbolSettings {
            servers: vec!["https://a.example".to_string(), "https://b.example".to_string()],
            cache_dir: "/cache/bp".to_string(),
            symindex_dir: None,
        }),
        windows: Some(WindowsSymbolSettings {
            servers: vec!["https://w.example".to_string()],
            cache_dir: "/cache/win".to_string(),
        }),
    }));
    let directives = create_symbol_manager_config(&settings);
    assert_eq!(directives.len(), 3);
    assert!(matches!(
        &directives[0],
        SymbolDirective::BreakpadServer { url, cache_dir }
            if url == "https://a.example" && cache_dir == "/cache/bp"
    ));
    assert!(matches!(
        &directives[1],
        SymbolDirective::BreakpadServer { url, cache_dir }
            if url == "https://b.example" && cache_dir == "/cache/bp"
    ));
    assert!(matches!(
        &directives[2],
        SymbolDirective::WindowsServer { url, cache_dir }
            if url == "https://w.example" && cache_dir == "/cache/win"
    ));
}

#[test]
fn download_url_table_tracks_in_flight_downloads() {
    let mut table = DownloadUrlTable::new();
    assert_eq!(table.len(), 0);
    table.record(7, "https://sym.example/xul.sym".to_string());
    table.record(9, "https://sym.example/libc.sym".to_string());
    assert_eq!(table.len(), 2);
    assert_eq!(table.url_for(7).unwrap(), "https://sym.example/xul.sym");
    assert!(table.url_for(8).is_none());
    let taken = table.take(9).unwrap();
    assert_eq!(taken, "https://sym.example/libc.sym");
    assert!(table.take(9).is_none());
    assert_eq!(table.len(), 1);
    // a re-announced id replaces its URL
    table.record(7, "https://other.example/xul.sym".to_string());
    assert_eq!(table.url_for(7).unwrap(), "https://other.example/xul.sym");
    assert_eq!(table.len(), 1);
}
