use vstd::prelude::*;

use crate::configuration::Settings;

verus! {

/// One instruction for building the symbol manager's configuration.
/// The surrounding program folds these, in order, into the external
/// symbol-resolution engine's builder; which directives arise from
/// which settings is decided, and proved, here.
pub enum SymbolDirective {
    /// Serve breakpad symbols from a local directory.
    BreakpadSymbolDir { path: String },
    /// Download breakpad symbols from a server, caching them locally.
    BreakpadServer { url: String, cache_dir: String },
    /// Keep breakpad symbol indexes in this directory.
    BreakpadSymindexDir { path: String },
    /// Download Windows symbols from a server, caching them locally.
    WindowsServer { url: String, cache_dir: String },
}

/// The directives arising from the breakpad section: without servers
/// the cache directory is served directly; with servers, one directive
/// per server; and the symindex directory, if set, comes last.
pub open spec fn spec_breakpad_directives(
    settings: crate::configuration::BreakpadSymbolSettings,
) -> Seq<SymbolDirective> {
    (if settings.servers@.len() == 0 {
        seq![SymbolDirective::BreakpadSymbolDir { path: settings.cache_dir }]
    } else {
        settings.servers@.map_values(
            |url: String| SymbolDirective::BreakpadServer { url, cache_dir: settings.cache_dir },
        )
    }) + (match settings.symindex_dir {
        Some(dir) => seq![SymbolDirective::BreakpadSymindexDir { path: dir }],
        None => Seq::<SymbolDirective>::empty(),
    })
}

/// The directives arising from the Windows section: one per server.
pub open spec fn spec_windows_directives(
    settings: crate::configuration::WindowsSymbolSettings,
) -> Seq<SymbolDirective> {
    settings.servers@.map_values(
        |url: String| SymbolDirective::WindowsServer { url, cache_dir: settings.cache_dir },
    )
}

/// Every directive the given settings call for, in order: the breakpad
/// section first, then the Windows section, and none at all without a
/// symbols section.
pub open spec fn spec_symbol_directives(settings: Settings) -> Seq<SymbolDirective> {
    match settings.symbols {
        None => Seq::<SymbolDirective>::empty(),
        Some(symbols) => (match symbols.breakpad {
            Some(breakpad) => spec_breakpad_directives(breakpad),
            None => Seq::<SymbolDirective>::empty(),
        }) + (match symbols.windows {
            Some(windows) => spec_windows_directives(windows),
            None => Seq::<SymbolDirective>::empty(),
        }),
    }
}

/// Compute the symbol manager configuration as a directive list.
pub fn create_symbol_manager_config(settings: &Settings) -> (r: Vec<SymbolDirective>)
    ensures
        r@ == spec_symbol_directives(*settings),
{
    let mut directives: Vec<SymbolDirective> = Vec::new();
    let symbols = match &settings.symbols {
        Some(symbols) => symbols,
        None => {
            proof {
                assert(directives@ =~= spec_symbol_directives(*settings));
            }
            return directives;
        },
    };
    if let Some(breakpad) = &symbols.breakpad {
        if breakpad.servers.len() == 0 {
            directives.push(
                SymbolDirective::BreakpadSymbolDir { path: breakpad.cache_dir.clone() },
            );
        } else {
            for i in 0..breakpad.servers.len()
                invariant
                    directives@ == breakpad.servers@.take(i as int).map_values(
                        |url: String| SymbolDirective::BreakpadServer {
                            url,
                            cache_dir: breakpad.cache_dir,
                        },
                    ),
            {
                directives.push(
                    SymbolDirective::BreakpadServer {
                        url: breakpad.servers[i].clone(),
                        cache_dir: breakpad.cache_dir.clone(),
                    },
                );
                proof {
                    assert(directives@ =~= breakpad.servers@.take(i + 1).map_values(
                        |url: String| SymbolDirective::BreakpadServer {
                            url,
                            cache_dir: breakpad.cache_dir,
                        },
                    ));
                }
            }
            proof {
                assert(breakpad.servers@.take(breakpad.servers@.len() as int)
                    =~= breakpad.servers@);
            }
        }
        if let Some(symindex_dir) = &breakpad.symindex_dir {
            directives.push(SymbolDirective::BreakpadSymindexDir { path: symindex_dir.clone() });
        }
        proof {
            assert(directives@ =~= spec_breakpad_directives(*breakpad));
        }
    }
    let ghost breakpad_part = directives@;
    if let Some(windows) = &symbols.windows {
        for i in 0..windows.servers.len()
            invariant
                directives@ == breakpad_part + windows.servers@.take(i as int).map_values(
                    |url: String| SymbolDirective::WindowsServer {
                        url,
                        cache_dir: windows.cache_dir,
                    },
                ),
        {
            directives.push(
                SymbolDirective::WindowsServer {
                    url: windows.servers[i].clone(),
                    cache_dir: windows.cache_dir.clone(),
                },
            );
            proof {
                assert(directives@ =~= breakpad_part + windows.servers@.take(i + 1).map_values(
                    |url: String| SymbolDirective::WindowsServer {
                        url,
                        cache_dir: windows.cache_dir,
                    },
                ));
            }
        }
        proof {
            assert(windows.servers@.take(windows.servers@.len() as int) =~= windows.servers@);
        }
    }
    proof {
        assert(directives@ =~= spec_symbol_directives(*settings));
    }
    directives
}

} // verus!
