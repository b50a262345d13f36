//! The settings a server starts with, from the values of its environment.
use vstd::prelude::*;
use crate::csv_parsing::types::opt_str_view;
use crate::text::{chars_of, extend, extend_str, join, join_chars, lit, seqs_of, split, split_chars, string_of, trim, trim_chars};

verus! {

/// The settings a server needs; all are required except the key to seed.
#[derive(Debug)]
pub struct Config {
    pub database_url: String,
    pub host: String,
    pub port: String,
    pub allowed_origins: String,
    /// A key to register on start, if any.
    pub seed_api_key: Option<String>,
    /// The name of that key; required when a key is given.
    pub seed_api_key_name: Option<String>,
}

/// An optional value with an empty one counted as absent.
pub open spec fn non_empty(o: Option<Seq<char>>) -> Option<Seq<char>> {
    match o {
        Some(s) => if s.len() > 0 {
            Some(s)
        } else {
            None
        },
        None => None,
    }
}

/// `name` when the value is absent, nothing otherwise.
pub open spec fn if_missing(name: Seq<char>, o: Option<Seq<char>>) -> Seq<Seq<char>> {
    if o is None {
        seq![name]
    } else {
        Seq::empty()
    }
}

/// The line for a key given without its name.
pub open spec fn seed_name_entry() -> Seq<char> {
    "SEED_API_KEY_NAME (required when SEED_API_KEY is set)"@
}

/// What is missing, in this order: the four required variables, then the
/// name of a seed key that is given (empty values count as absent for the
/// seed key and its name only).
pub open spec fn missing_settings(
    database_url: Option<Seq<char>>,
    host: Option<Seq<char>>,
    port: Option<Seq<char>>,
    allowed_origins: Option<Seq<char>>,
    seed_api_key: Option<Seq<char>>,
    seed_api_key_name: Option<Seq<char>>,
) -> Seq<Seq<char>> {
    if_missing("DATABASE_URL"@, database_url) + if_missing("HOST"@, host) + if_missing("PORT"@, port)
        + if_missing("ALLOWED_ORIGINS"@, allowed_origins) + if (non_empty(seed_api_key) is Some
        && non_empty(seed_api_key_name) is None) {
        seq![seed_name_entry()]
    } else {
        Seq::empty()
    }
}

/// The error listing what is missing, one `  - name` line each.
pub open spec fn missing_message(missing: Seq<Seq<char>>) -> Seq<char> {
    "Missing required environment variables:\n"@ + join(missing.map_values(|v: Seq<char>| "  - "@ + v), "\n"@)
}

fn push_if_missing(missing: &mut Vec<Vec<char>>, name: &str, o: &Option<String>)
    ensures
        seqs_of(final(missing)@) == seqs_of(old(missing)@) + if_missing(name@, opt_str_view(*o)),
{
    if o.is_none() {
        missing.push(lit(name));
        assert(seqs_of(missing@) =~= seqs_of(old(missing)@) + if_missing(name@, opt_str_view(*o)));
    } else {
        assert(seqs_of(missing@) =~= seqs_of(old(missing)@) + if_missing(name@, opt_str_view(*o)));
    }
}

fn keep_non_empty(o: Option<String>) -> (r: Option<String>)
    ensures
        opt_str_view(r) == non_empty(opt_str_view(o)),
{
    match o {
        Some(s) => if s.as_str().is_empty() {
            None
        } else {
            Some(s)
        },
        None => None,
    }
}

impl Config {
    /// The settings from the values of the variables `DATABASE_URL`, `HOST`,
    /// `PORT`, `ALLOWED_ORIGINS`, `SEED_API_KEY` and `SEED_API_KEY_NAME`
    /// (`None` where a variable is unset). Every missing setting is reported
    /// at once.
    pub fn from_values(
        database_url: Option<String>,
        host: Option<String>,
        port: Option<String>,
        allowed_origins: Option<String>,
        seed_api_key: Option<String>,
        seed_api_key_name: Option<String>,
    ) -> (r: Result<Config, String>)
        ensures
            ({
                let missing = missing_settings(
                    opt_str_view(database_url),
                    opt_str_view(host),
                    opt_str_view(port),
                    opt_str_view(allowed_origins),
                    opt_str_view(seed_api_key),
                    opt_str_view(seed_api_key_name),
                );
                match r {
                    Ok(c) => missing.len() == 0 && Some(c.database_url@) == opt_str_view(database_url) && Some(c.host@)
                        == opt_str_view(host) && Some(c.port@) == opt_str_view(port) && Some(c.allowed_origins@) == opt_str_view(
                        allowed_origins,
                    ) && opt_str_view(c.seed_api_key) == non_empty(opt_str_view(seed_api_key)) && opt_str_view(
                        c.seed_api_key_name,
                    ) == non_empty(opt_str_view(seed_api_key_name)),
                    Err(m) => missing.len() > 0 && m@ == missing_message(missing),
                }
            }),
    {
        let ghost missing_spec = missing_settings(
            opt_str_view(database_url),
            opt_str_view(host),
            opt_str_view(port),
            opt_str_view(allowed_origins),
            opt_str_view(seed_api_key),
            opt_str_view(seed_api_key_name),
        );
        let seed_key = keep_non_empty(seed_api_key);
        let seed_name = keep_non_empty(seed_api_key_name);
        let mut missing: Vec<Vec<char>> = Vec::new();
        push_if_missing(&mut missing, "DATABASE_URL", &database_url);
        push_if_missing(&mut missing, "HOST", &host);
        push_if_missing(&mut missing, "PORT", &port);
        push_if_missing(&mut missing, "ALLOWED_ORIGINS", &allowed_origins);
        let ghost before = seqs_of(missing@);
        if seed_key.is_some() && seed_name.is_none() {
            missing.push(lit("SEED_API_KEY_NAME (required when SEED_API_KEY is set)"));
            assert(seqs_of(missing@) =~= before + seq![seed_name_entry()]);
        } else {
            assert(seqs_of(missing@) =~= before + Seq::<Seq<char>>::empty());
        }
        assert(seqs_of(missing@) =~= missing_spec);
        if missing.len() > 0 {
            let mut lines: Vec<Vec<char>> = Vec::new();
            let mut i: usize = 0;
            while i < missing.len()
                invariant
                    i <= missing.len(),
                    seqs_of(lines@) == seqs_of(missing@).take(i as int).map_values(|v: Seq<char>| "  - "@ + v),
                decreases missing.len() - i,
            {
                let ghost prev = seqs_of(lines@);
                let mut line = lit("  - ");
                extend(&mut line, &missing[i]);
                lines.push(line);
                assert(seqs_of(missing@).take(i + 1).map_values(|v: Seq<char>| "  - "@ + v) =~= seqs_of(
                    missing@,
                ).take(i as int).map_values(|v: Seq<char>| "  - "@ + v).push("  - "@ + missing@[i as int]@));
                assert(seqs_of(lines@) =~= prev.push("  - "@ + missing@[i as int]@));
                i += 1;
            }
            assert(seqs_of(missing@).take(missing.len() as int) =~= seqs_of(missing@));
            let mut m = lit("Missing required environment variables:\n");
            extend(&mut m, &join_chars(&lines, &lit("\n")));
            return Err(string_of(&m));
        }
        match (database_url, host, port, allowed_origins) {
            (Some(database_url), Some(host), Some(port), Some(allowed_origins)) => Ok(
                Config {
                    database_url,
                    host,
                    port,
                    allowed_origins,
                    seed_api_key: seed_key,
                    seed_api_key_name: seed_name,
                },
            ),
            _ => {
                assert(false);
                Err(String::new())
            },
        }
    }

    /// The address to listen on: `host:port`.
    pub fn addr(&self) -> (r: String)
        ensures
            r@ == self.host@ + ":"@ + self.port@,
    {
        let mut v = lit(self.host.as_str());
        extend_str(&mut v, ":");
        extend_str(&mut v, self.port.as_str());
        string_of(&v)
    }

    /// The origins allowed to call the server: the comma-separated pieces of
    /// `allowed_origins`, trimmed.
    pub fn cors_origins(&self) -> (r: Vec<String>)
        ensures
            crate::text::strs_of(r@) == split(self.allowed_origins@, ","@).map_values(|p: Seq<char>| trim(p)),
    {
        let comma = lit(",");
        proof {
            reveal_strlit(",");
        }
        let parts = split_chars(&chars_of(self.allowed_origins.as_str()), &comma);
        let mut out: Vec<String> = Vec::new();
        let mut i: usize = 0;
        while i < parts.len()
            invariant
                i <= parts.len(),
                seqs_of(parts@) == split(self.allowed_origins@, ","@),
                crate::text::strs_of(out@) == seqs_of(parts@).take(i as int).map_values(|p: Seq<char>| trim(p)),
            decreases parts.len() - i,
        {
            let ghost prev = crate::text::strs_of(out@);
            out.push(string_of(&trim_chars(&parts[i])));
            assert(seqs_of(parts@).take(i + 1).map_values(|p: Seq<char>| trim(p)) =~= seqs_of(parts@).take(
                i as int,
            ).map_values(|p: Seq<char>| trim(p)).push(trim(parts@[i as int]@)));
            assert(crate::text::strs_of(out@) =~= prev.push(trim(parts@[i as int]@)));
            i += 1;
        }
        assert(seqs_of(parts@).take(parts.len() as int) =~= seqs_of(parts@));
        out
    }
}

} // verus!
