//! The settings of a server and how they are read from the text of the
//! settings file.

use vstd::prelude::*;
use crate::decimal::{parse_i64, parse_i64_spec, IntErrorKind};
use crate::result::{AppError, AppErrorView};
use crate::text::{contains_string, free_of, join, split_commas, views};

verus! {

/// The settings of a server.
#[derive(Debug)]
pub struct Config {
    pub local_ip: String,
    pub local_ws_server_port: i64,
    pub token_secret: String,
    pub token_exp: i64,
    pub allow_platform: Vec<String>,
    pub etcd_uri: Vec<String>,
}

/// `pieces` is the text `s` split at its commas.
pub open spec fn comma_list(pieces: Seq<String>, s: Seq<char>) -> bool {
    &&& pieces.len() >= 1
    &&& free_of(views(pieces), ',')
    &&& join(views(pieces), ',') == s
}

/// The error that a number which did not parse becomes.
pub open spec fn parse_error(k: IntErrorKind) -> AppErrorView {
    AppErrorView::Anyhow(k.spec_message())
}

/// A setting holds a number: `Ok` with its value, or the error.
pub open spec fn number_setting(r: Result<String, AppError>) -> Result<int, AppErrorView> {
    match r {
        Ok(s) => match parse_i64_spec(s@) {
            Ok(v) => Ok(v),
            Err(k) => Err(parse_error(k)),
        },
        Err(e) => Err(e@),
    }
}

/// A setting holds text: `Ok` with its value, or the error.
pub open spec fn text_setting(r: Result<String, AppError>) -> Result<Seq<char>, AppErrorView> {
    match r {
        Ok(s) => Ok(s@),
        Err(e) => Err(e@),
    }
}

/// The first error among the settings, in the order in which they are read:
/// the local address, the port, the token secret, the token lifetime, the
/// platforms, the etcd addresses.
pub open spec fn first_setting_error(
    local_ip: Result<String, AppError>,
    port: Result<String, AppError>,
    secret: Result<String, AppError>,
    exp: Result<String, AppError>,
    platforms: Result<String, AppError>,
    etcd: Result<String, AppError>,
) -> Option<AppErrorView> {
    if text_setting(local_ip) is Err {
        Some(text_setting(local_ip)->Err_0)
    } else if number_setting(port) is Err {
        Some(number_setting(port)->Err_0)
    } else if text_setting(secret) is Err {
        Some(text_setting(secret)->Err_0)
    } else if number_setting(exp) is Err {
        Some(number_setting(exp)->Err_0)
    } else if text_setting(platforms) is Err {
        Some(text_setting(platforms)->Err_0)
    } else if text_setting(etcd) is Err {
        Some(text_setting(etcd)->Err_0)
    } else {
        None
    }
}

fn read_number(r: Result<String, AppError>) -> (out: Result<i64, AppError>)
    ensures
        match out {
            Ok(v) => number_setting(r) == Ok::<int, AppErrorView>(v as int),
            Err(e) => number_setting(r) == Err::<int, AppErrorView>(e@),
        },
{
    match r {
        Ok(s) => match parse_i64(s.as_str()) {
            Ok(v) => Ok(v),
            Err(k) => Err(AppError::Anyhow(k.message())),
        },
        Err(e) => Err(e),
    }
}

impl Config {
    /// Builds the settings from what was read for each of them: the local
    /// address, the port and the token lifetime as decimal numbers, the token
    /// secret, and the lists of platforms and etcd addresses separated by
    /// commas. The first setting that is missing or whose number does not
    /// parse decides the error.
    pub fn from_sources(
        local_ip: Result<String, AppError>,
        port: Result<String, AppError>,
        token_secret: Result<String, AppError>,
        token_exp: Result<String, AppError>,
        allow_platform: Result<String, AppError>,
        etcd_uri: Result<String, AppError>,
    ) -> (r: Result<Config, AppError>)
        ensures
            match first_setting_error(local_ip, port, token_secret, token_exp, allow_platform, etcd_uri) {
                Some(e) => r matches Err(err) && err@ == e,
                None => r matches Ok(c) && {
                    &&& Ok::<Seq<char>, AppErrorView>(c.local_ip@) == text_setting(local_ip)
                    &&& Ok::<int, AppErrorView>(c.local_ws_server_port as int) == number_setting(port)
                    &&& Ok::<Seq<char>, AppErrorView>(c.token_secret@) == text_setting(token_secret)
                    &&& Ok::<int, AppErrorView>(c.token_exp as int) == number_setting(token_exp)
                    &&& comma_list(c.allow_platform@, text_setting(allow_platform)->Ok_0)
                    &&& comma_list(c.etcd_uri@, text_setting(etcd_uri)->Ok_0)
                },
            },
    {
        let ghost (l0, p0, s0, e0, a0, u0) = (local_ip, port, token_secret, token_exp, allow_platform, etcd_uri);
        let local_ip = match local_ip {
            Ok(v) => v,
            Err(e) => return Err(e),
        };
        let port = match read_number(port) {
            Ok(v) => v,
            Err(e) => return Err(e),
        };
        let token_secret = match token_secret {
            Ok(v) => v,
            Err(e) => return Err(e),
        };
        let token_exp = match read_number(token_exp) {
            Ok(v) => v,
            Err(e) => return Err(e),
        };
        let allow_platform = match allow_platform {
            Ok(v) => split_commas(v.as_str()),
            Err(e) => return Err(e),
        };
        let etcd_uri = match etcd_uri {
            Ok(v) => split_commas(v.as_str()),
            Err(e) => return Err(e),
        };
        Ok(Config {
            local_ip,
            local_ws_server_port: port,
            token_secret,
            token_exp,
            allow_platform,
            etcd_uri,
        })
    }

    /// Whether clients of `platform` may connect.
    pub fn allows_platform(&self, platform: &String) -> (r: bool)
        ensures
            r == views(self.allow_platform@).contains(platform@),
    {
        contains_string(&self.allow_platform, platform)
    }
}

} // verus!
