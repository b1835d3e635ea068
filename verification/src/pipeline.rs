//! The generation pipeline and its command line.
//!
//! `parse_args` reads the flag list into a configuration (paths are plain
//! strings; the driver owns all file handling). The two contract
//! functions run the whole pipeline on a decoded descriptor set: index
//! build, then one generator each.

use vstd::prelude::*;
use vstd::string::StringExecFns;

use crate::builder::build_index;
use crate::builder::spec_build_index;
use crate::bridge::build_openapi_bridge;
use crate::bridge::spec_openapi_bridge;
use crate::descriptor::DescriptorSet;
use crate::json::spec_json_text;
use crate::markdown::build_markdown;
use crate::markdown::spec_markdown;
use crate::strutil::str_eq;

verus! {

broadcast use vstd::std_specs::vec::group_vec_axioms;

/// Where the generator reads from and writes to.
#[derive(Debug, Clone)]
pub struct Config {
    pub proto: String,
    pub includes: Vec<String>,
    pub out_markdown: String,
    pub out_openapi: String,
}

/// Model of a configuration.
pub ghost struct ConfigModel {
    pub proto: Seq<char>,
    pub includes: Seq<Seq<char>>,
    pub out_markdown: Seq<char>,
    pub out_openapi: Seq<char>,
}

impl View for Config {
    type V = ConfigModel;

    open spec fn view(&self) -> ConfigModel {
        ConfigModel {
            proto: self.proto@,
            includes: self.includes@.map_values(|s: String| s@),
            out_markdown: self.out_markdown@,
            out_openapi: self.out_openapi@,
        }
    }
}

/// The built-in configuration.
pub open spec fn spec_default_config() -> ConfigModel {
    ConfigModel {
        proto: "crates/meld-rpc/proto/service.proto"@,
        includes: seq!["crates/meld-rpc/proto"@],
        out_markdown: "docs/generated/grpc-contracts.md"@,
        out_openapi: "docs/generated/grpc-openapi-bridge.json"@,
    }
}

impl Default for Config {
    /// The built-in configuration.
    fn default() -> (r: Config)
        ensures
            r@ == spec_default_config(),
    {
        let mut includes: Vec<String> = Vec::new();
        includes.push(String::from_str("crates/meld-rpc/proto"));
        let r = Config {
            proto: String::from_str("crates/meld-rpc/proto/service.proto"),
            includes,
            out_markdown: String::from_str("docs/generated/grpc-contracts.md"),
            out_openapi: String::from_str("docs/generated/grpc-openapi-bridge.json"),
        };
        proof {
            assert(r@.includes =~= spec_default_config().includes);
        }
        r
    }
}

/// What a parsed command line asks for.
#[derive(Debug)]
pub enum CliCommand {
    Run(Config),
    Help,
}

/// Model of a parse outcome.
pub ghost enum ParseOutcome {
    Run(ConfigModel),
    Help,
    Fail(Seq<char>),
}

/// One flag consumed after another: each value flag replaces its setting
/// (the first `--include` clears the built-in list), a help flag stops,
/// an unknown flag fails.
pub open spec fn spec_parse(cfg: ConfigModel, includes_set: bool, args: Seq<Seq<char>>) -> ParseOutcome
    decreases args.len(),
{
    if args.len() == 0 {
        ParseOutcome::Run(cfg)
    } else if args[0] == "--proto"@ {
        if args.len() < 2 {
            ParseOutcome::Fail("missing value for --proto"@)
        } else {
            spec_parse(ConfigModel { proto: args[1], ..cfg }, includes_set, args.skip(2))
        }
    } else if args[0] == "--include"@ {
        if args.len() < 2 {
            ParseOutcome::Fail("missing value for --include"@)
        } else {
            let includes = if includes_set {
                cfg.includes.push(args[1])
            } else {
                seq![args[1]]
            };
            spec_parse(ConfigModel { includes, ..cfg }, true, args.skip(2))
        }
    } else if args[0] == "--out-md"@ {
        if args.len() < 2 {
            ParseOutcome::Fail("missing value for --out-md"@)
        } else {
            spec_parse(ConfigModel { out_markdown: args[1], ..cfg }, includes_set, args.skip(2))
        }
    } else if args[0] == "--out-openapi"@ {
        if args.len() < 2 {
            ParseOutcome::Fail("missing value for --out-openapi"@)
        } else {
            spec_parse(ConfigModel { out_openapi: args[1], ..cfg }, includes_set, args.skip(2))
        }
    } else if args[0] == "--help"@ || args[0] == "-h"@ {
        ParseOutcome::Help
    } else {
        ParseOutcome::Fail("unknown argument: "@ + args[0])
    }
}

/// The outcome of parsing a whole command line against the built-in
/// configuration.
pub open spec fn spec_parse_args(args: Seq<Seq<char>>) -> ParseOutcome {
    spec_parse(spec_default_config(), false, args)
}

/// Parses the command line: flag-and-value pairs over the built-in
/// configuration; an unknown flag or a flag without its value is an
/// error; a help flag asks for usage.
pub fn parse_args(args: &Vec<String>) -> (r: Result<CliCommand, String>)
    ensures
        match r {
            Ok(CliCommand::Run(cfg)) => spec_parse_args(args@.map_values(|s: String| s@))
                == ParseOutcome::Run(cfg@),
            Ok(CliCommand::Help) => spec_parse_args(args@.map_values(|s: String| s@))
                == ParseOutcome::Help,
            Err(msg) => spec_parse_args(args@.map_values(|s: String| s@)) == ParseOutcome::Fail(
                msg@,
            ),
        },
{
    let ghost all = args@.map_values(|s: String| s@);
    let mut cfg = Config::default();
    let mut includes_set = false;
    let mut i: usize = 0;
    proof {
        assert(all.skip(0) =~= all);
    }
    while i < args.len()
        invariant
            i <= args.len(),
            all == args@.map_values(|s: String| s@),
            all.len() == args@.len(),
            forall|t: int| 0 <= t < all.len() ==> all[t] == args@[t]@,
            spec_parse_args(all) == spec_parse(cfg@, includes_set, all.skip(i as int)),
        decreases args.len() - i,
    {
        let arg = &args[i];
        let ghost cfg0 = cfg@;
        let ghost set0 = includes_set;
        let ghost i0 = i as int;
        proof {
            assert(all.skip(i0)[0] == all[i0]);
            if i + 1 < args.len() {
                assert(all.skip(i0).len() >= 2);
                assert(all.skip(i0)[1] == all[i0 + 1]);
                assert(all.skip(i0).skip(2) =~= all.skip(i0 + 2));
            }
        }
        if str_eq(arg.as_str(), "--proto") {
            if i + 1 >= args.len() {
                assert(all.skip(i as int).len() < 2);
                return Err(String::from_str("missing value for --proto"));
            }
            cfg.proto = args[i + 1].clone();
            proof {
                assert(cfg@ == ConfigModel { proto: all[i0 + 1], ..cfg0 });
                assert(spec_parse(cfg0, set0, all.skip(i0)) == spec_parse(
                    cfg@,
                    includes_set,
                    all.skip(i0 + 2),
                ));
            }
            i += 2;
        } else if str_eq(arg.as_str(), "--include") {
            if i + 1 >= args.len() {
                assert(all.skip(i as int).len() < 2);
                return Err(String::from_str("missing value for --include"));
            }
            if !includes_set {
                cfg.includes = Vec::new();
                includes_set = true;
            }
            cfg.includes.push(args[i + 1].clone());
            proof {
                if set0 {
                    assert(cfg@.includes =~= cfg0.includes.push(all[i0 + 1]));
                } else {
                    assert(cfg@.includes =~= seq![all[i0 + 1]]);
                }
                assert(cfg@ == ConfigModel {
                    includes: if set0 {
                        cfg0.includes.push(all[i0 + 1])
                    } else {
                        seq![all[i0 + 1]]
                    },
                    ..cfg0
                });
                assert(spec_parse(cfg0, set0, all.skip(i0)) == spec_parse(
                    cfg@,
                    includes_set,
                    all.skip(i0 + 2),
                ));
            }
            i += 2;
        } else if str_eq(arg.as_str(), "--out-md") {
            if i + 1 >= args.len() {
                assert(all.skip(i as int).len() < 2);
                return Err(String::from_str("missing value for --out-md"));
            }
            cfg.out_markdown = args[i + 1].clone();
            proof {
                assert(cfg@ == ConfigModel { out_markdown: all[i0 + 1], ..cfg0 });
                assert(spec_parse(cfg0, set0, all.skip(i0)) == spec_parse(
                    cfg@,
                    includes_set,
                    all.skip(i0 + 2),
                ));
            }
            i += 2;
        } else if str_eq(arg.as_str(), "--out-openapi") {
            if i + 1 >= args.len() {
                assert(all.skip(i as int).len() < 2);
                return Err(String::from_str("missing value for --out-openapi"));
            }
            cfg.out_openapi = args[i + 1].clone();
            proof {
                assert(cfg@ == ConfigModel { out_openapi: all[i0 + 1], ..cfg0 });
                assert(spec_parse(cfg0, set0, all.skip(i0)) == spec_parse(
                    cfg@,
                    includes_set,
                    all.skip(i0 + 2),
                ));
            }
            i += 2;
        } else if str_eq(arg.as_str(), "--help") || str_eq(arg.as_str(), "-h") {
            return Ok(CliCommand::Help);
        } else {
            let mut msg = String::from_str("unknown argument: ");
            msg.append(arg.as_str());
            assert(msg@ =~= "unknown argument: "@ + all[i as int]);
            return Err(msg);
        }
    }
    assert(all.skip(args@.len() as int) =~= Seq::<Seq<char>>::empty());
    Ok(CliCommand::Run(cfg))
}

/// The usage line that a help flag asks for.
pub fn usage() -> (r: String)
    ensures
        r@
            == "grpc-docgen [--proto <path>] [--include <path>]... [--out-md <path>] [--out-openapi <path>]"@,
{
    String::from_str(
        "grpc-docgen [--proto <path>] [--include <path>]... [--out-md <path>] [--out-openapi <path>]",
    )
}

/// The markdown contract document of a decoded descriptor set.
pub fn grpc_contract_docs_markdown(descriptor_set: &DescriptorSet) -> (r: String)
    ensures
        r@ == spec_markdown(spec_build_index(descriptor_set@)),
{
    let index = build_index(descriptor_set);
    build_markdown(&index)
}

/// The schema bridge document of a decoded descriptor set, as compact
/// JSON text.
pub fn grpc_contract_openapi_bridge_json(descriptor_set: &DescriptorSet) -> (r: String)
    ensures
        r@ == spec_json_text(spec_openapi_bridge(spec_build_index(descriptor_set@))),
{
    let index = build_index(descriptor_set);
    let bridge = build_openapi_bridge(&index);
    bridge.to_text()
}

} // verus!
