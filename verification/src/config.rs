//! Server configuration.

use vstd::prelude::*;
use crate::json::{parse_json, spec_obj_get, JsonData, JsonValue};

verus! {

/// The server's configuration.  Paths are held as plain text.
#[derive(Debug, Clone)]
pub struct Configuration {
    pub host: String,
    pub port: u16,
    pub dylib_dir: Option<String>,
    pub qdrant_url: Option<String>,
    pub model_dir: String,
    pub domain_language_dir: Option<String>,
}

/// The mathematical content of a configuration.
pub ghost struct ConfigData {
    pub host: Seq<char>,
    pub port: u16,
    pub dylib_dir: Option<Seq<char>>,
    pub qdrant_url: Option<Seq<char>>,
    pub model_dir: Seq<char>,
    pub domain_language_dir: Option<Seq<char>>,
}

impl View for Configuration {
    type V = ConfigData;

    open spec fn view(&self) -> ConfigData {
        ConfigData {
            host: self.host@,
            port: self.port,
            dylib_dir: match self.dylib_dir {
                Some(s) => Some(s@),
                None => None,
            },
            qdrant_url: match self.qdrant_url {
                Some(s) => Some(s@),
                None => None,
            },
            model_dir: self.model_dir@,
            domain_language_dir: match self.domain_language_dir {
                Some(s) => Some(s@),
                None => None,
            },
        }
    }
}

pub fn default_port() -> (r: u16)
    ensures
        r == 7878,
{
    7878
}

pub fn default_host() -> (r: String)
    ensures
        r@ == "127.0.0.1"@,
{
    "127.0.0.1".to_owned()
}

pub fn default_model_dir() -> (r: String)
    ensures
        r@ == "model"@,
{
    "model".to_owned()
}

pub fn default_domain_language_dir() -> (r: Option<String>)
    ensures
        r matches Some(s) && s@ == "domain"@,
{
    Some("domain".to_owned())
}

/// A text field: present as a string, or absent; any other shape is a
/// configuration error.
pub open spec fn spec_opt_text_field(
    fields: Seq<(Seq<char>, JsonData)>,
    key: Seq<char>,
) -> Option<Option<Seq<char>>> {
    match spec_obj_get(fields, key) {
        Some(JsonData::Str(s)) => Some(Some(s)),
        Some(JsonData::Null) => Some(None),
        Some(_) => None,
        None => Some(None),
    }
}

/// What parsing a configuration document yields: every absent field falls
/// back to its default; a field of the wrong shape fails the whole document.
pub open spec fn spec_config_of(d: Option<JsonData>) -> Option<ConfigData> {
    match d {
        Some(JsonData::Obj(fields)) => {
            let host = spec_opt_text_field(fields, "host"@);
            let port = match spec_obj_get(fields, "port"@) {
                Some(JsonData::Num(n)) => if 0 <= n <= u16::MAX as i64 {
                    Some(n as u16)
                } else {
                    None
                },
                Some(_) => None,
                None => Some(7878u16),
            };
            let dylib_dir = spec_opt_text_field(fields, "dylib_dir"@);
            let qdrant_url = spec_opt_text_field(fields, "qdrant_url"@);
            let model_dir = spec_opt_text_field(fields, "model_dir"@);
            let domain_language_dir = spec_opt_text_field(fields, "domain_language_dir"@);
            if host is Some && port is Some && dylib_dir is Some && qdrant_url is Some && model_dir
                is Some && domain_language_dir is Some {
                Some(
                    ConfigData {
                        host: match host->Some_0 {
                            Some(h) => h,
                            None => "127.0.0.1"@,
                        },
                        port: port->Some_0,
                        dylib_dir: dylib_dir->Some_0,
                        qdrant_url: qdrant_url->Some_0,
                        model_dir: match model_dir->Some_0 {
                            Some(m) => m,
                            None => "model"@,
                        },
                        domain_language_dir: match domain_language_dir->Some_0 {
                            Some(d) => Some(d),
                            None => Some("domain"@),
                        },
                    },
                )
            } else {
                None
            }
        },
        _ => None,
    }
}

fn opt_text_field(fields: &Vec<(String, JsonValue)>, key: &str) -> (r: Option<Option<String>>)
    ensures
        r matches Some(o) ==> spec_opt_text_field(crate::json::obj_view(fields@), key@)
            matches Some(so) && (o matches Some(s) ==> so == Some(s@)) && (o is None ==> so
            is None),
        r is None <==> spec_opt_text_field(crate::json::obj_view(fields@), key@) is None,
{
    match crate::json::obj_get(fields, key) {
        Some(JsonValue::Str(s)) => Some(Some(s.clone())),
        Some(JsonValue::Null) => Some(None),
        Some(_) => None,
        None => Some(None),
    }
}

impl Configuration {
    /// The development fallback used when no configuration file is given.
    pub fn default() -> (r: Configuration)
        ensures
            r@.host == "0.0.0.0"@,
            r@.port == 8765,
            r@.dylib_dir is None,
            r@.qdrant_url matches Some(u) && u == "http://127.0.0.1:6334"@,
            r@.model_dir == "model"@,
            r@.domain_language_dir matches Some(d) && d == "domain"@,
    {
        Configuration {
            host: "0.0.0.0".to_owned(),
            port: 8765,
            dylib_dir: None,
            qdrant_url: Some("http://127.0.0.1:6334".to_owned()),
            model_dir: "model".to_owned(),
            domain_language_dir: Some("domain".to_owned()),
        }
    }

    /// Reads a configuration from its JSON text.
    pub fn from_json_str(s: &str) -> (r: Option<Configuration>)
        ensures
            r matches Some(c) ==> spec_config_of(crate::json::json_data_of(s@)) == Some(c@),
            r is None <==> spec_config_of(crate::json::json_data_of(s@)) is None,
    {
        let parsed = match parse_json(s) {
            Some(v) => v,
            None => {
                return None;
            },
        };
        let fields = match &parsed {
            JsonValue::Obj(fields) => fields,
            _ => {
                return None;
            },
        };
        proof {
            crate::json::lemma_view_obj(parsed);
        }
        let host = match opt_text_field(fields, "host") {
            Some(o) => o,
            None => {
                return None;
            },
        };
        let port: u16 = match crate::json::obj_get(fields, "port") {
            Some(JsonValue::Num(n)) => {
                if 0 <= *n && *n <= 65535 {
                    *n as u16
                } else {
                    return None;
                }
            },
            Some(_) => {
                return None;
            },
            None => 7878,
        };
        let dylib_dir = match opt_text_field(fields, "dylib_dir") {
            Some(o) => o,
            None => {
                return None;
            },
        };
        let qdrant_url = match opt_text_field(fields, "qdrant_url") {
            Some(o) => o,
            None => {
                return None;
            },
        };
        let model_dir = match opt_text_field(fields, "model_dir") {
            Some(o) => o,
            None => {
                return None;
            },
        };
        let domain_language_dir = match opt_text_field(fields, "domain_language_dir") {
            Some(o) => o,
            None => {
                return None;
            },
        };
        Some(
            Configuration {
                host: match host {
                    Some(h) => h,
                    None => default_host(),
                },
                port,
                dylib_dir,
                qdrant_url,
                model_dir: match model_dir {
                    Some(m) => m,
                    None => default_model_dir(),
                },
                domain_language_dir: match domain_language_dir {
                    Some(d) => Some(d),
                    None => Some("domain".to_owned()),
                },
            },
        )
    }
}

} // verus!
