//! Configuration of a SQL sink service.
use vstd::prelude::*;
use crate::store::str_equal;

verus! {

/// A SQL sink: its schema and the optional frontends served beside it.
#[derive(Clone, Debug, PartialEq, Default)]
pub struct Service {
    pub schema: String,
    pub dbt_config: Option<DbtConfig>,
    pub hasura_frontend: Option<HasuraFrontend>,
    pub postgraphile_frontend: Option<PostgraphileFrontend>,
    pub engine: i32,
    pub rest_frontend: Option<RestFrontend>,
}

/// The database engine of a SQL sink.
#[derive(Clone, Copy, Debug, PartialEq, Eq, Hash, PartialOrd, Ord)]
pub enum Engine {
    Unset,
    Postgres,
    Clickhouse,
}

/// The stable name of an engine.
pub open spec fn engine_name(e: Engine) -> Seq<char> {
    match e {
        Engine::Unset => seq!['u', 'n', 's', 'e', 't'],
        Engine::Postgres => seq!['p', 'o', 's', 't', 'g', 'r', 'e', 's'],
        Engine::Clickhouse => seq!['c', 'l', 'i', 'c', 'k', 'h', 'o', 'u', 's', 'e'],
    }
}

impl Engine {
    /// The name of the engine as written in the service definition.
    pub fn as_str_name(&self) -> (r: &'static str)
        ensures
            r@ == engine_name(*self),
    {
        proof {
            reveal_strlit("unset");
            reveal_strlit("postgres");
            reveal_strlit("clickhouse");
        }
        match self {
            Engine::Unset => "unset",
            Engine::Postgres => "postgres",
            Engine::Clickhouse => "clickhouse",
        }
    }

    /// The engine of a name, if it names one.
    pub fn from_str_name(value: &str) -> (r: Option<Engine>)
        ensures
            r matches Some(e) ==> engine_name(e) == value@,
            r is None ==> forall|e: Engine| engine_name(e) != value@,
    {
        proof {
            reveal_strlit("unset");
            reveal_strlit("postgres");
            reveal_strlit("clickhouse");
        }
        if str_equal(value, "unset") {
            Some(Engine::Unset)
        } else if str_equal(value, "postgres") {
            Some(Engine::Postgres)
        } else if str_equal(value, "clickhouse") {
            Some(Engine::Clickhouse)
        } else {
            proof {
                assert forall|e: Engine| engine_name(e) != value@ by {
                    match e {
                        Engine::Unset => assert(engine_name(e) =~= "unset"@),
                        Engine::Postgres => assert(engine_name(e) =~= "postgres"@),
                        Engine::Clickhouse => assert(engine_name(e) =~= "clickhouse"@),
                    }
                }
            }
            None
        }
    }
}

/// A dbt project run beside the sink.
#[derive(Clone, Debug, PartialEq, Default)]
pub struct DbtConfig {
    pub files: Vec<u8>,
    pub run_interval_seconds: i32,
    pub enabled: bool,
}

/// A Hasura frontend.
#[derive(Clone, Debug, PartialEq, Default)]
pub struct HasuraFrontend {
    pub enabled: bool,
}

/// A PostGraphile frontend.
#[derive(Clone, Debug, PartialEq, Default)]
pub struct PostgraphileFrontend {
    pub enabled: bool,
}

/// A pgweb frontend.
#[derive(Clone, Debug, PartialEq, Default)]
pub struct PgWebFrontend {
    pub enabled: bool,
}

/// A REST frontend.
#[derive(Clone, Debug, PartialEq, Default)]
pub struct RestFrontend {
    pub enabled: bool,
}

} // verus!
