//! Serialization of the registry to a structured text document, and the
//! parser that reads it back.
//!
//! The document is a JSON object with four fields — users, apartments,
//! cameras, settings — mirroring the data model.  Strings are quoted, with
//! `"` and `\` escaped and control characters written as `\u00XX`; numbers
//! are decimal; booleans are `true`/`false`.  The serializer
//! [`ser_config`] is a specification function, the parser [`parse_config`]
//! another, and [`lemma_config_round_trip`] proves that parsing a
//! serialized registry yields the registry back: the round trip loses
//! nothing.

use vstd::prelude::*;
use vstd::utf8::char_u32_cast;
use vstd::string::{StrSliceExecFns, StringExecFns};
use crate::auth::{User, UserRole, UserV};
use crate::config::{Apartment, ApartmentV, Camera, CameraV, Config, ConfigV, Settings, SettingsV};
use crate::error::SurveillanceError;
use crate::text::push_char;

verus! {

// ---------------------------------------------------------------------
// Characters and escaping
// ---------------------------------------------------------------------

/// Whether `c` is a decimal digit.
pub open spec fn is_digit(c: char) -> bool {
    48 <= c as u32 <= 57
}

/// Whether `c` is a lower-case hexadecimal digit.
pub open spec fn is_hex_digit(c: char) -> bool {
    (48 <= c as u32 <= 57) || (97 <= c as u32 <= 102)
}

/// The numeric value of a decimal digit character.
pub open spec fn digit_val(c: char) -> int {
    c as u32 - 48
}

/// The numeric value of a lower-case hexadecimal digit character.
pub open spec fn hex_val(c: char) -> int {
    if 48 <= c as u32 <= 57 {
        c as u32 - 48
    } else {
        c as u32 - 87
    }
}

/// The lower-case hexadecimal digit character for a value below 16.
pub open spec fn hex_digit(n: int) -> char {
    if n < 10 {
        ((48 + n) as u8) as char
    } else {
        ((87 + n) as u8) as char
    }
}

/// The escape sequence a character is written as inside a quoted string.
pub open spec fn esc_char(c: char) -> Seq<char> {
    if c == '"' {
        seq!['\\', '"']
    } else if c == '\\' {
        seq!['\\', '\\']
    } else if (c as u32) < 32 {
        seq!['\\', 'u', '0', '0', hex_digit((c as u32) as int / 16), hex_digit((c as u32) as int % 16)]
    } else {
        seq![c]
    }
}

/// The body of a quoted string: every character escaped as needed.
pub open spec fn esc(s: Seq<char>) -> Seq<char>
    decreases s.len(),
{
    if s.len() == 0 {
        Seq::empty()
    } else {
        esc_char(s[0]) + esc(s.drop_first())
    }
}

// ---------------------------------------------------------------------
// The serializer
// ---------------------------------------------------------------------

/// A quoted, escaped string.
pub open spec fn ser_str(s: Seq<char>) -> Seq<char> {
    seq!['"'] + esc(s) + seq!['"']
}

/// The decimal digits of a number, most significant first.
pub open spec fn dec_rep(n: nat) -> Seq<char>
    decreases n,
{
    if n < 10 {
        seq![hex_digit(n as int)]
    } else {
        dec_rep(n / 10).push(hex_digit((n % 10) as int))
    }
}

/// A number in decimal.
pub open spec fn ser_u32(n: u32) -> Seq<char> {
    dec_rep(n as nat)
}

/// A boolean literal.
pub open spec fn ser_bool(b: bool) -> Seq<char> {
    if b {
        "true"@
    } else {
        "false"@
    }
}

/// A role, as a quoted name.
pub open spec fn ser_role(r: UserRole) -> Seq<char> {
    if r == UserRole::Admin {
        "\"Admin\""@
    } else {
        "\"Operator\""@
    }
}

/// One identity object.
pub open spec fn ser_user(u: UserV) -> Seq<char> {
    "{\"login\":"@ + ser_str(u.login) + ",\"password_hash\":"@ + ser_str(u.password_hash)
        + ",\"role\":"@ + ser_role(u.role) + "}"@
}

/// One apartment object.
pub open spec fn ser_apartment(a: ApartmentV) -> Seq<char> {
    "{\"id\":"@ + ser_u32(a.id) + ",\"apartment_name\":"@ + ser_str(a.apartment_name)
        + ",\"apartment_number\":"@ + ser_str(a.apartment_number) + "}"@
}

/// One camera object.
pub open spec fn ser_camera(c: CameraV) -> Seq<char> {
    "{\"id\":"@ + ser_u32(c.id) + ",\"camera_name\":"@ + ser_str(c.camera_name)
        + ",\"apartment_name\":"@ + ser_str(c.apartment_name) + ",\"rtsp_link\":"@ + ser_str(
        c.rtsp_link,
    ) + ",\"enabled\":"@ + ser_bool(c.enabled) + "}"@
}

/// The settings object.
pub open spec fn ser_settings(s: SettingsV) -> Seq<char> {
    "{\"rotation_interval\":"@ + ser_u32(s.rotation_interval) + ",\"connection_timeout\":"@
        + ser_u32(s.connection_timeout) + ",\"retry_interval\":"@ + ser_u32(s.retry_interval)
        + ",\"max_retry_attempts\":"@ + ser_u32(s.max_retry_attempts)
        + ",\"low_quality_resolution\":"@ + ser_str(s.low_quality_resolution)
        + ",\"high_quality_resolution\":"@ + ser_str(s.high_quality_resolution) + ",\"grid_size\":"@
        + ser_u32(s.grid_size) + "}"@
}

/// The identities, comma-separated.
pub open spec fn ser_users(s: Seq<UserV>) -> Seq<char>
    decreases s.len(),
{
    if s.len() == 0 {
        Seq::empty()
    } else if s.len() == 1 {
        ser_user(s[0])
    } else {
        ser_user(s[0]) + seq![','] + ser_users(s.drop_first())
    }
}

/// The apartments, comma-separated.
pub open spec fn ser_apartments(s: Seq<ApartmentV>) -> Seq<char>
    decreases s.len(),
{
    if s.len() == 0 {
        Seq::empty()
    } else if s.len() == 1 {
        ser_apartment(s[0])
    } else {
        ser_apartment(s[0]) + seq![','] + ser_apartments(s.drop_first())
    }
}

/// The cameras, comma-separated.
pub open spec fn ser_cameras(s: Seq<CameraV>) -> Seq<char>
    decreases s.len(),
{
    if s.len() == 0 {
        Seq::empty()
    } else if s.len() == 1 {
        ser_camera(s[0])
    } else {
        ser_camera(s[0]) + seq![','] + ser_cameras(s.drop_first())
    }
}

/// The whole registry as one document.
pub open spec fn ser_config(c: ConfigV) -> Seq<char> {
    "{\"users\":["@ + ser_users(c.users) + "],\"apartments\":["@ + ser_apartments(c.apartments)
        + "],\"cameras\":["@ + ser_cameras(c.cameras) + "],\"settings\":"@ + ser_settings(
        c.settings,
    ) + "}"@
}

// ---------------------------------------------------------------------
// The parser
// ---------------------------------------------------------------------

/// Consumes an exact literal, or fails.
pub open spec fn parse_lit(s: Seq<char>, l: Seq<char>) -> Option<Seq<char>> {
    if s.len() >= l.len() && s.subrange(0, l.len() as int) == l {
        Some(s.skip(l.len() as int))
    } else {
        None
    }
}

/// Consumes a quoted string's body up to and including the closing quote,
/// undoing the escapes.
pub open spec fn parse_str_body(s: Seq<char>) -> Option<(Seq<char>, Seq<char>)>
    decreases s.len(),
{
    if s.len() == 0 {
        None
    } else if s[0] == '"' {
        Some((Seq::empty(), s.drop_first()))
    } else if s[0] == '\\' {
        if s.len() >= 2 && (s[1] == '"' || s[1] == '\\') {
            match parse_str_body(s.skip(2)) {
                Some((t, r)) => Some((seq![s[1]] + t, r)),
                None => None,
            }
        } else if s.len() >= 6 && s[1] == 'u' && s[2] == '0' && s[3] == '0' && is_hex_digit(s[4])
            && is_hex_digit(s[5]) && hex_val(s[4]) * 16 + hex_val(s[5]) < 32 {
            match parse_str_body(s.skip(6)) {
                Some((t, r)) => Some(
                    (seq![((hex_val(s[4]) * 16 + hex_val(s[5])) as u8) as char] + t, r),
                ),
                None => None,
            }
        } else {
            None
        }
    } else {
        match parse_str_body(s.drop_first()) {
            Some((t, r)) => Some((seq![s[0]] + t, r)),
            None => None,
        }
    }
}

/// Consumes a quoted string.
pub open spec fn parse_string(s: Seq<char>) -> Option<(Seq<char>, Seq<char>)> {
    if s.len() > 0 && s[0] == '"' {
        parse_str_body(s.drop_first())
    } else {
        None
    }
}

/// Consumes decimal digits into an accumulator, failing on overflow.
pub open spec fn parse_u32_loop(s: Seq<char>, acc: u32) -> Option<(u32, Seq<char>)>
    decreases s.len(),
{
    if s.len() == 0 || !is_digit(s[0]) {
        Some((acc, s))
    } else if acc as int * 10 + digit_val(s[0]) <= u32::MAX as int {
        parse_u32_loop(s.drop_first(), (acc as int * 10 + digit_val(s[0])) as u32)
    } else {
        None
    }
}

/// Consumes a decimal number.
pub open spec fn parse_u32(s: Seq<char>) -> Option<(u32, Seq<char>)> {
    if s.len() > 0 && is_digit(s[0]) {
        parse_u32_loop(s, 0)
    } else {
        None
    }
}

/// Consumes a boolean literal.
pub open spec fn parse_bool(s: Seq<char>) -> Option<(bool, Seq<char>)> {
    match parse_lit(s, "true"@) {
        Some(r) => Some((true, r)),
        None => match parse_lit(s, "false"@) {
            Some(r) => Some((false, r)),
            None => None,
        },
    }
}

/// Consumes a quoted role name.
pub open spec fn parse_role(s: Seq<char>) -> Option<(UserRole, Seq<char>)> {
    match parse_lit(s, "\"Admin\""@) {
        Some(r) => Some((UserRole::Admin, r)),
        None => match parse_lit(s, "\"Operator\""@) {
            Some(r) => Some((UserRole::Operator, r)),
            None => None,
        },
    }
}

/// Consumes one identity object.
pub open spec fn parse_user(s: Seq<char>) -> Option<(UserV, Seq<char>)> {
    match parse_lit(s, "{\"login\":"@) {
        None => None,
        Some(s1) => match parse_string(s1) {
            None => None,
            Some((login, s2)) => match parse_lit(s2, ",\"password_hash\":"@) {
                None => None,
                Some(s3) => match parse_string(s3) {
                    None => None,
                    Some((password_hash, s4)) => match parse_lit(s4, ",\"role\":"@) {
                        None => None,
                        Some(s5) => match parse_role(s5) {
                            None => None,
                            Some((role, s6)) => match parse_lit(s6, "}"@) {
                                None => None,
                                Some(s7) => Some((UserV { login, password_hash, role }, s7)),
                            },
                        },
                    },
                },
            },
        },
    }
}

/// Consumes one apartment object.
pub open spec fn parse_apartment(s: Seq<char>) -> Option<(ApartmentV, Seq<char>)> {
    match parse_lit(s, "{\"id\":"@) {
        None => None,
        Some(s1) => match parse_u32(s1) {
            None => None,
            Some((id, s2)) => match parse_lit(s2, ",\"apartment_name\":"@) {
                None => None,
                Some(s3) => match parse_string(s3) {
                    None => None,
                    Some((apartment_name, s4)) => match parse_lit(s4, ",\"apartment_number\":"@) {
                        None => None,
                        Some(s5) => match parse_string(s5) {
                            None => None,
                            Some((apartment_number, s6)) => match parse_lit(s6, "}"@) {
                                None => None,
                                Some(s7) => Some(
                                    (ApartmentV { id, apartment_name, apartment_number }, s7),
                                ),
                            },
                        },
                    },
                },
            },
        },
    }
}

/// Consumes one camera object.
pub open spec fn parse_camera(s: Seq<char>) -> Option<(CameraV, Seq<char>)> {
    match parse_lit(s, "{\"id\":"@) {
        None => None,
        Some(s1) => match parse_u32(s1) {
            None => None,
            Some((id, s2)) => match parse_lit(s2, ",\"camera_name\":"@) {
                None => None,
                Some(s3) => match parse_string(s3) {
                    None => None,
                    Some((camera_name, s4)) => match parse_lit(s4, ",\"apartment_name\":"@) {
                        None => None,
                        Some(s5) => match parse_string(s5) {
                            None => None,
                            Some((apartment_name, s6)) => match parse_lit(s6, ",\"rtsp_link\":"@) {
                                None => None,
                                Some(s7) => match parse_string(s7) {
                                    None => None,
                                    Some((rtsp_link, s8)) => match parse_lit(
                                        s8,
                                        ",\"enabled\":"@,
                                    ) {
                                        None => None,
                                        Some(s9) => match parse_bool(s9) {
                                            None => None,
                                            Some((enabled, s10)) => match parse_lit(s10, "}"@) {
                                                None => None,
                                                Some(s11) => Some(
                                                    (
                                                        CameraV {
                                                            id,
                                                            camera_name,
                                                            apartment_name,
                                                            rtsp_link,
                                                            enabled,
                                                        },
                                                        s11,
                                                    ),
                                                ),
                                            },
                                        },
                                    },
                                },
                            },
                        },
                    },
                },
            },
        },
    }
}

/// Consumes the settings object.
pub open spec fn parse_settings(s: Seq<char>) -> Option<(SettingsV, Seq<char>)> {
    match parse_lit(s, "{\"rotation_interval\":"@) {
        None => None,
        Some(s1) => match parse_u32(s1) {
            None => None,
            Some((rotation_interval, s2)) => match parse_lit(s2, ",\"connection_timeout\":"@) {
                None => None,
                Some(s3) => match parse_u32(s3) {
                    None => None,
                    Some((connection_timeout, s4)) => match parse_lit(s4, ",\"retry_interval\":"@) {
                        None => None,
                        Some(s5) => match parse_u32(s5) {
                            None => None,
                            Some((retry_interval, s6)) => match parse_lit(
                                s6,
                                ",\"max_retry_attempts\":"@,
                            ) {
                                None => None,
                                Some(s7) => match parse_u32(s7) {
                                    None => None,
                                    Some((max_retry_attempts, s8)) => match parse_lit(
                                        s8,
                                        ",\"low_quality_resolution\":"@,
                                    ) {
                                        None => None,
                                        Some(s9) => match parse_string(s9) {
                                            None => None,
                                            Some((low_quality_resolution, s10)) => match parse_lit(
                                                s10,
                                                ",\"high_quality_resolution\":"@,
                                            ) {
                                                None => None,
                                                Some(s11) => match parse_string(s11) {
                                                    None => None,
                                                    Some((high_quality_resolution, s12)) => match parse_lit(
                                                        s12,
                                                        ",\"grid_size\":"@,
                                                    ) {
                                                        None => None,
                                                        Some(s13) => match parse_u32(s13) {
                                                            None => None,
                                                            Some((grid_size, s14)) => match parse_lit(
                                                                s14,
                                                                "}"@,
                                                            ) {
                                                                None => None,
                                                                Some(s15) => Some(
                                                                    (
                                                                        SettingsV {
                                                                            rotation_interval,
                                                                            connection_timeout,
                                                                            retry_interval,
                                                                            max_retry_attempts,
                                                                            low_quality_resolution,
                                                                            high_quality_resolution,
                                                                            grid_size,
                                                                        },
                                                                        s15,
                                                                    ),
                                                                ),
                                                            },
                                                        },
                                                    },
                                                },
                                            },
                                        },
                                    },
                                },
                            },
                        },
                    },
                },
            },
        },
    }
}

/// Consumes one or more comma-separated identity objects.
pub open spec fn parse_users_items(s: Seq<char>) -> Option<(Seq<UserV>, Seq<char>)>
    decreases s.len(),
{
    match parse_user(s) {
        None => None,
        Some((u, r)) => if r.len() > 0 && r[0] == ',' {
            proof {
                lemma_parse_user_consumes(s);
            }
            match parse_users_items(r.drop_first()) {
                None => None,
                Some((rest_items, r2)) => Some((seq![u] + rest_items, r2)),
            }
        } else {
            Some((seq![u], r))
        },
    }
}

/// Consumes one or more comma-separated apartment objects.
pub open spec fn parse_apartments_items(s: Seq<char>) -> Option<(Seq<ApartmentV>, Seq<char>)>
    decreases s.len(),
{
    match parse_apartment(s) {
        None => None,
        Some((a, r)) => if r.len() > 0 && r[0] == ',' {
            proof {
                lemma_parse_apartment_consumes(s);
            }
            match parse_apartments_items(r.drop_first()) {
                None => None,
                Some((rest_items, r2)) => Some((seq![a] + rest_items, r2)),
            }
        } else {
            Some((seq![a], r))
        },
    }
}

/// Consumes one or more comma-separated camera objects.
pub open spec fn parse_cameras_items(s: Seq<char>) -> Option<(Seq<CameraV>, Seq<char>)>
    decreases s.len(),
{
    match parse_camera(s) {
        None => None,
        Some((c, r)) => if r.len() > 0 && r[0] == ',' {
            proof {
                lemma_parse_camera_consumes(s);
            }
            match parse_cameras_items(r.drop_first()) {
                None => None,
                Some((rest_items, r2)) => Some((seq![c] + rest_items, r2)),
            }
        } else {
            Some((seq![c], r))
        },
    }
}

/// Consumes a possibly empty identity list body (no brackets).
pub open spec fn parse_users(s: Seq<char>) -> Option<(Seq<UserV>, Seq<char>)> {
    if s.len() > 0 && s[0] == ']' {
        Some((Seq::empty(), s))
    } else {
        parse_users_items(s)
    }
}

/// Consumes a possibly empty apartment list body (no brackets).
pub open spec fn parse_apartments(s: Seq<char>) -> Option<(Seq<ApartmentV>, Seq<char>)> {
    if s.len() > 0 && s[0] == ']' {
        Some((Seq::empty(), s))
    } else {
        parse_apartments_items(s)
    }
}

/// Consumes a possibly empty camera list body (no brackets).
pub open spec fn parse_cameras(s: Seq<char>) -> Option<(Seq<CameraV>, Seq<char>)> {
    if s.len() > 0 && s[0] == ']' {
        Some((Seq::empty(), s))
    } else {
        parse_cameras_items(s)
    }
}

/// Consumes a whole registry document.
pub open spec fn parse_config_doc(s: Seq<char>) -> Option<(ConfigV, Seq<char>)> {
    match parse_lit(s, "{\"users\":["@) {
        None => None,
        Some(s1) => match parse_users(s1) {
            None => None,
            Some((users, s2)) => match parse_lit(s2, "],\"apartments\":["@) {
                None => None,
                Some(s3) => match parse_apartments(s3) {
                    None => None,
                    Some((apartments, s4)) => match parse_lit(s4, "],\"cameras\":["@) {
                        None => None,
                        Some(s5) => match parse_cameras(s5) {
                            None => None,
                            Some((cameras, s6)) => match parse_lit(s6, "],\"settings\":"@) {
                                None => None,
                                Some(s7) => match parse_settings(s7) {
                                    None => None,
                                    Some((settings, s8)) => match parse_lit(s8, "}"@) {
                                        None => None,
                                        Some(s9) => Some(
                                            (ConfigV { users, apartments, cameras, settings }, s9),
                                        ),
                                    },
                                },
                            },
                        },
                    },
                },
            },
        },
    }
}

/// The registry a document denotes, if the document is well-formed in
/// whole (nothing may follow it).
pub open spec fn parse_config(s: Seq<char>) -> Option<ConfigV> {
    match parse_config_doc(s) {
        None => None,
        Some((c, r)) => if r.len() == 0 {
            Some(c)
        } else {
            None
        },
    }
}

// ---------------------------------------------------------------------
// Consumption: a successful parse leaves a strictly shorter suffix
// ---------------------------------------------------------------------

/// A parsed string body is a suffix of the input, strictly shorter.
pub proof fn lemma_parse_str_body_consumes(s: Seq<char>)
    ensures
        parse_str_body(s) matches Some(p) ==> p.1.len() < s.len(),
    decreases s.len(),
{
    if s.len() > 0 && s[0] != '"' {
        if s[0] == '\\' {
            if s.len() >= 2 && (s[1] == '"' || s[1] == '\\') {
                lemma_parse_str_body_consumes(s.skip(2));
            } else if s.len() >= 6 && s[1] == 'u' && s[2] == '0' && s[3] == '0' && is_hex_digit(
                s[4],
            ) && is_hex_digit(s[5]) && hex_val(s[4]) * 16 + hex_val(s[5]) < 32 {
                lemma_parse_str_body_consumes(s.skip(6));
            }
        } else {
            lemma_parse_str_body_consumes(s.drop_first());
        }
    }
}

/// A parsed number leaves a suffix no longer than the input.
pub proof fn lemma_parse_u32_loop_consumes(s: Seq<char>, acc: u32)
    ensures
        parse_u32_loop(s, acc) matches Some(p) ==> p.1.len() <= s.len(),
    decreases s.len(),
{
    if s.len() > 0 && is_digit(s[0]) && acc as int * 10 + digit_val(s[0]) <= u32::MAX as int {
        lemma_parse_u32_loop_consumes(s.drop_first(), (acc as int * 10 + digit_val(s[0])) as u32);
    }
}

/// A parsed identity object leaves a strictly shorter suffix.
pub proof fn lemma_parse_user_consumes(s: Seq<char>)
    ensures
        parse_user(s) matches Some(p) ==> p.1.len() < s.len(),
{
    reveal_strlit("{\"login\":");
    if let Some(s1) = parse_lit(s, "{\"login\":"@) {
        if s1.len() > 0 && s1[0] == '"' {
            lemma_parse_str_body_consumes(s1.drop_first());
        }
        if let Some((_login, s2)) = parse_string(s1) {
            if let Some(s3) = parse_lit(s2, ",\"password_hash\":"@) {
                if s3.len() > 0 && s3[0] == '"' {
                    lemma_parse_str_body_consumes(s3.drop_first());
                }
            }
        }
    }
}

/// A parsed apartment object leaves a strictly shorter suffix.
pub proof fn lemma_parse_apartment_consumes(s: Seq<char>)
    ensures
        parse_apartment(s) matches Some(p) ==> p.1.len() < s.len(),
{
    reveal_strlit("{\"id\":");
    if let Some(s1) = parse_lit(s, "{\"id\":"@) {
        lemma_parse_u32_loop_consumes(s1, 0);
        if let Some((_id, s2)) = parse_u32(s1) {
            if let Some(s3) = parse_lit(s2, ",\"apartment_name\":"@) {
                if s3.len() > 0 && s3[0] == '"' {
                    lemma_parse_str_body_consumes(s3.drop_first());
                }
                if let Some((_n, s4)) = parse_string(s3) {
                    if let Some(s5) = parse_lit(s4, ",\"apartment_number\":"@) {
                        if s5.len() > 0 && s5[0] == '"' {
                            lemma_parse_str_body_consumes(s5.drop_first());
                        }
                    }
                }
            }
        }
    }
}

/// A parsed camera object leaves a strictly shorter suffix.
pub proof fn lemma_parse_camera_consumes(s: Seq<char>)
    ensures
        parse_camera(s) matches Some(p) ==> p.1.len() < s.len(),
{
    reveal_strlit("{\"id\":");
    if let Some(s1) = parse_lit(s, "{\"id\":"@) {
        lemma_parse_u32_loop_consumes(s1, 0);
        if let Some((_id, s2)) = parse_u32(s1) {
            if let Some(s3) = parse_lit(s2, ",\"camera_name\":"@) {
                if s3.len() > 0 && s3[0] == '"' {
                    lemma_parse_str_body_consumes(s3.drop_first());
                }
                if let Some((_n, s4)) = parse_string(s3) {
                    if let Some(s5) = parse_lit(s4, ",\"apartment_name\":"@) {
                        if s5.len() > 0 && s5[0] == '"' {
                            lemma_parse_str_body_consumes(s5.drop_first());
                        }
                        if let Some((_a, s6)) = parse_string(s5) {
                            if let Some(s7) = parse_lit(s6, ",\"rtsp_link\":"@) {
                                if s7.len() > 0 && s7[0] == '"' {
                                    lemma_parse_str_body_consumes(s7.drop_first());
                                }
                            }
                        }
                    }
                }
            }
        }
    }
}


// ---------------------------------------------------------------------
// Round trip: parsing a serialized value yields the value back
// ---------------------------------------------------------------------

/// A literal placed at the front of the input parses off exactly.
proof fn lemma_parse_lit_round(l: Seq<char>, rest: Seq<char>)
    ensures
        parse_lit(l + rest, l) == Some(rest),
{
    let s = l + rest;
    assert(s.subrange(0, l.len() as int) =~= l);
    assert(s.skip(l.len() as int) =~= rest);
}

/// Escaping distributes over concatenation.
proof fn lemma_esc_append(a: Seq<char>, b: Seq<char>)
    ensures
        esc(a + b) == esc(a) + esc(b),
    decreases a.len(),
{
    if a.len() == 0 {
        assert(a + b =~= b);
        assert(esc(a) + esc(b) =~= esc(b));
    } else {
        assert((a + b).drop_first() =~= a.drop_first() + b);
        lemma_esc_append(a.drop_first(), b);
        assert(esc(a + b) =~= esc(a) + esc(b));
    }
}

/// An escaped string body followed by its closing quote parses back to
/// the original characters.
proof fn lemma_str_body_round(t: Seq<char>, rest: Seq<char>)
    ensures
        parse_str_body(esc(t) + seq!['"'] + rest) == Some((t, rest)),
    decreases t.len(),
{
    let s = esc(t) + seq!['"'] + rest;
    if t.len() == 0 {
        assert(s =~= seq!['"'] + rest);
        assert(s[0] == '"');
        assert(s.drop_first() =~= rest);
    } else {
        let c = t[0];
        let t2 = t.drop_first();
        let tail = esc(t2) + seq!['"'] + rest;
        assert(s =~= esc_char(c) + tail);
        lemma_str_body_round(t2, rest);
        if c == '"' {
            assert(s[0] == '\\' && s[1] == '"');
            assert(s.skip(2) =~= tail);
            assert(seq![s[1]] + t2 =~= t);
        } else if c == '\\' {
            assert(s[0] == '\\' && s[1] == '\\');
            assert(s.skip(2) =~= tail);
            assert(seq![s[1]] + t2 =~= t);
        } else if (c as u32) < 32 {
            let code = (c as u32) as int;
            let h1 = hex_digit(code / 16);
            let h2 = hex_digit(code % 16);
            assert(s[0] == '\\' && s[1] == 'u' && s[2] == '0' && s[3] == '0' && s[4] == h1 && s[5]
                == h2);
            assert(h1 as u32 == 48 + code / 16);
            assert(is_hex_digit(h1) && hex_val(h1) == code / 16);
            if code % 16 < 10 {
                assert(h2 as u32 == 48 + code % 16);
            } else {
                assert(h2 as u32 == 87 + code % 16);
            }
            assert(is_hex_digit(h2) && hex_val(h2) == code % 16);
            assert(hex_val(s[4]) * 16 + hex_val(s[5]) == code);
            assert(s[1] != '"' && s[1] != '\\');
            assert(s.skip(6) =~= tail);
            let rc = ((hex_val(s[4]) * 16 + hex_val(s[5])) as u8) as char;
            assert(rc as u32 == code);
            char_u32_cast(rc, rc as u32);
            char_u32_cast(c, c as u32);
            assert(rc == c);
            assert(seq![rc] + t2 =~= t);
        } else {
            assert(s[0] == c);
            assert(s.drop_first() =~= tail);
            assert(seq![s[0]] + t2 =~= t);
        }
    }
}

/// A serialized string parses back to the original characters.
proof fn lemma_str_round(t: Seq<char>, rest: Seq<char>)
    ensures
        parse_string(ser_str(t) + rest) == Some((t, rest)),
{
    let s = ser_str(t) + rest;
    assert(s[0] == '"');
    assert(s.drop_first() =~= esc(t) + seq!['"'] + rest);
    lemma_str_body_round(t, rest);
}

/// Ten to the power of the digit count of `n`.
pub open spec fn p10(n: nat) -> nat
    decreases n,
{
    if n < 10 {
        10
    } else {
        10 * p10(n / 10)
    }
}

/// Ten to the power of a digit count is positive.
proof fn lemma_p10_pos(n: nat)
    ensures
        p10(n) >= 10,
    decreases n,
{
    if n >= 10 {
        lemma_p10_pos(n / 10);
    }
}

/// The decimal digits of a number are non-empty and start with a digit.
proof fn lemma_dec_rep_first(n: nat)
    ensures
        dec_rep(n).len() >= 1,
        is_digit(dec_rep(n)[0]),
    decreases n,
{
    if n < 10 {
        assert(dec_rep(n)[0] as u32 == 48 + n);
    } else {
        lemma_dec_rep_first(n / 10);
        assert(dec_rep(n)[0] == dec_rep(n / 10)[0]);
    }
}

/// Scanning the digits of `m` with an accumulator multiplies the
/// accumulator past those digits and adds `m`.
proof fn lemma_u32_loop_round(m: nat, acc: u32, rest: Seq<char>)
    requires
        acc as int * p10(m) as int + m as int <= u32::MAX as int,
    ensures
        parse_u32_loop(dec_rep(m) + rest, acc) == parse_u32_loop(
            rest,
            ((acc as int * p10(m) as int + m as int) as u32),
        ),
    decreases m,
{
    let s = dec_rep(m) + rest;
    if m < 10 {
        let d = hex_digit(m as int);
        assert(d as u32 == 48 + m);
        assert(s[0] == d);
        assert(is_digit(d) && digit_val(d) == m as int);
        assert(s.drop_first() =~= rest);
        assert(acc as int * 10 + m as int <= u32::MAX as int);
    } else {
        let d = hex_digit((m % 10) as int);
        assert(d as u32 == 48 + m % 10);
        assert(dec_rep(m) =~= dec_rep(m / 10) + seq![d]);
        assert(s =~= dec_rep(m / 10) + (seq![d] + rest));
        let acc2int = acc as int * p10(m / 10) as int + (m / 10) as int;
        assert(p10(m) == 10 * p10(m / 10));
        assert(acc2int * 10 + (m % 10) as int == acc as int * p10(m) as int + m as int) by (nonlinear_arith)
            requires
                acc2int == acc as int * p10(m / 10) as int + (m / 10) as int,
                p10(m) as int == 10 * p10(m / 10) as int,
                m as int == 10 * (m / 10) as int + (m % 10) as int,
        ;
        lemma_p10_pos(m / 10);
        assert(0 <= acc2int) by (nonlinear_arith)
            requires
                acc2int == acc as int * p10(m / 10) as int + (m / 10) as int,
                acc as int >= 0,
                p10(m / 10) as int >= 1,
                (m / 10) as int >= 0,
        ;
        assert(acc2int <= u32::MAX as int);
        lemma_u32_loop_round(m / 10, acc, seq![d] + rest);
        let acc2 = acc2int as u32;
        let s2 = seq![d] + rest;
        assert(s2[0] == d && is_digit(d) && digit_val(d) == (m % 10) as int);
        assert(acc2 as int * 10 + digit_val(d) <= u32::MAX as int);
        assert(s2.drop_first() =~= rest);
    }
}

/// A serialized number followed by a non-digit parses back to the number.
proof fn lemma_u32_round(n: u32, rest: Seq<char>)
    requires
        rest.len() == 0 || !is_digit(rest[0]),
    ensures
        parse_u32(ser_u32(n) + rest) == Some((n, rest)),
{
    let s = ser_u32(n) + rest;
    lemma_dec_rep_first(n as nat);
    assert(s[0] == dec_rep(n as nat)[0]);
    lemma_p10_pos(n as nat);
    lemma_u32_loop_round(n as nat, 0, rest);
}

/// A serialized boolean parses back.
proof fn lemma_bool_round(b: bool, rest: Seq<char>)
    ensures
        parse_bool(ser_bool(b) + rest) == Some((b, rest)),
{
    reveal_strlit("true");
    reveal_strlit("false");
    let s = ser_bool(b) + rest;
    if b {
        lemma_parse_lit_round("true"@, rest);
    } else {
        assert(parse_lit(s, "true"@) is None) by {
            if s.len() >= 4 && s.subrange(0, 4) == "true"@ {
                assert(s.subrange(0, 4)[0] == s[0]);
                assert(s[0] == 'f');
            }
        }
        lemma_parse_lit_round("false"@, rest);
    }
}

/// A serialized role parses back.
proof fn lemma_role_round(r: UserRole, rest: Seq<char>)
    ensures
        parse_role(ser_role(r) + rest) == Some((r, rest)),
{
    reveal_strlit("\"Admin\"");
    reveal_strlit("\"Operator\"");
    let s = ser_role(r) + rest;
    if r == UserRole::Admin {
        lemma_parse_lit_round("\"Admin\""@, rest);
    } else {
        assert(parse_lit(s, "\"Admin\""@) is None) by {
            if s.len() >= 7 && s.subrange(0, 7) == "\"Admin\""@ {
                assert(s.subrange(0, 7)[1] == s[1]);
                assert(s[1] == 'O');
            }
        }
        lemma_parse_lit_round("\"Operator\""@, rest);
    }
}

/// A serialized identity object parses back.
proof fn lemma_user_round(u: UserV, rest: Seq<char>)
    ensures
        parse_user(ser_user(u) + rest) == Some((u, rest)),
{
    let l1 = "{\"login\":"@;
    let l2 = ",\"password_hash\":"@;
    let l3 = ",\"role\":"@;
    let l4 = "}"@;
    let t4 = l4 + rest;
    let t3 = ser_role(u.role) + t4;
    let t2 = l3 + t3;
    let t1 = ser_str(u.password_hash) + t2;
    let t0 = l2 + t1;
    let s1 = ser_str(u.login) + t0;
    assert(ser_user(u) + rest =~= l1 + s1);
    lemma_parse_lit_round(l1, s1);
    lemma_str_round(u.login, t0);
    lemma_parse_lit_round(l2, t1);
    lemma_str_round(u.password_hash, t2);
    lemma_parse_lit_round(l3, t3);
    lemma_role_round(u.role, t4);
    lemma_parse_lit_round(l4, rest);
}

/// A serialized apartment object parses back.
proof fn lemma_apartment_round(a: ApartmentV, rest: Seq<char>)
    ensures
        parse_apartment(ser_apartment(a) + rest) == Some((a, rest)),
{
    let l1 = "{\"id\":"@;
    let l2 = ",\"apartment_name\":"@;
    let l3 = ",\"apartment_number\":"@;
    let l4 = "}"@;
    reveal_strlit(",\"apartment_name\":");
    let t4 = l4 + rest;
    let t3 = ser_str(a.apartment_number) + t4;
    let t2 = l3 + t3;
    let t1 = ser_str(a.apartment_name) + t2;
    let t0 = l2 + t1;
    let s1 = ser_u32(a.id) + t0;
    assert(ser_apartment(a) + rest =~= l1 + s1);
    lemma_parse_lit_round(l1, s1);
    assert(t0[0] == l2[0]);
    assert(!is_digit(t0[0]));
    lemma_u32_round(a.id, t0);
    lemma_parse_lit_round(l2, t1);
    lemma_str_round(a.apartment_name, t2);
    lemma_parse_lit_round(l3, t3);
    lemma_str_round(a.apartment_number, t4);
    lemma_parse_lit_round(l4, rest);
}

/// A serialized camera object parses back.
proof fn lemma_camera_round(c: CameraV, rest: Seq<char>)
    ensures
        parse_camera(ser_camera(c) + rest) == Some((c, rest)),
{
    let l1 = "{\"id\":"@;
    let l2 = ",\"camera_name\":"@;
    let l3 = ",\"apartment_name\":"@;
    let l4 = ",\"rtsp_link\":"@;
    let l5 = ",\"enabled\":"@;
    let l6 = "}"@;
    reveal_strlit(",\"camera_name\":");
    let n1 = ser_u32(c.id);
    let s2 = ser_str(c.camera_name);
    let s3 = ser_str(c.apartment_name);
    let s4 = ser_str(c.rtsp_link);
    let b5 = ser_bool(c.enabled);
    let p2 = l1 + n1;
    let p3 = p2 + l2;
    let p4 = p3 + s2;
    let p5 = p4 + l3;
    let p6 = p5 + s3;
    let p7 = p6 + l4;
    let p8 = p7 + s4;
    let p9 = p8 + l5;
    let p10f = p9 + b5;
    assert(ser_camera(c) == p10f + l6);
    let t6 = l6 + rest;
    let t5 = b5 + t6;
    let t4b = l5 + t5;
    let t4 = s4 + t4b;
    let t3b = l4 + t4;
    let t3 = s3 + t3b;
    let t2b = l3 + t3;
    let t2 = s2 + t2b;
    let t1b = l2 + t2;
    let t1 = n1 + t1b;
    vstd::seq_lib::lemma_concat_associative(p10f, l6, rest);
    vstd::seq_lib::lemma_concat_associative(p9, b5, t6);
    vstd::seq_lib::lemma_concat_associative(p8, l5, t5);
    vstd::seq_lib::lemma_concat_associative(p7, s4, t4b);
    vstd::seq_lib::lemma_concat_associative(p6, l4, t4);
    vstd::seq_lib::lemma_concat_associative(p5, s3, t3b);
    vstd::seq_lib::lemma_concat_associative(p4, l3, t3);
    vstd::seq_lib::lemma_concat_associative(p3, s2, t2b);
    vstd::seq_lib::lemma_concat_associative(p2, l2, t2);
    vstd::seq_lib::lemma_concat_associative(l1, n1, t1b);
    assert(ser_camera(c) + rest == l1 + t1);
    lemma_parse_lit_round(l1, t1);
    assert(t1b[0] == l2[0]);
    assert(!is_digit(t1b[0]));
    lemma_u32_round(c.id, t1b);
    lemma_parse_lit_round(l2, t2);
    lemma_str_round(c.camera_name, t2b);
    lemma_parse_lit_round(l3, t3);
    lemma_str_round(c.apartment_name, t3b);
    lemma_parse_lit_round(l4, t4);
    lemma_str_round(c.rtsp_link, t4b);
    lemma_parse_lit_round(l5, t5);
    lemma_bool_round(c.enabled, t6);
    lemma_parse_lit_round(l6, rest);
}

/// A serialized settings object parses back.
proof fn lemma_settings_round(v: SettingsV, rest: Seq<char>)
    ensures
        parse_settings(ser_settings(v) + rest) == Some((v, rest)),
{
    let l1 = "{\"rotation_interval\":"@;
    let l2 = ",\"connection_timeout\":"@;
    let l3 = ",\"retry_interval\":"@;
    let l4 = ",\"max_retry_attempts\":"@;
    let l5 = ",\"low_quality_resolution\":"@;
    let l6 = ",\"high_quality_resolution\":"@;
    let l7 = ",\"grid_size\":"@;
    let l8 = "}"@;
    reveal_strlit(",\"connection_timeout\":");
    reveal_strlit(",\"retry_interval\":");
    reveal_strlit(",\"max_retry_attempts\":");
    reveal_strlit(",\"low_quality_resolution\":");
    reveal_strlit("}");
    let n1 = ser_u32(v.rotation_interval);
    let n2 = ser_u32(v.connection_timeout);
    let n3 = ser_u32(v.retry_interval);
    let n4 = ser_u32(v.max_retry_attempts);
    let s5 = ser_str(v.low_quality_resolution);
    let s6 = ser_str(v.high_quality_resolution);
    let n7 = ser_u32(v.grid_size);
    let p2 = l1 + n1;
    let p3 = p2 + l2;
    let p4 = p3 + n2;
    let p5 = p4 + l3;
    let p6 = p5 + n3;
    let p7 = p6 + l4;
    let p8 = p7 + n4;
    let p9 = p8 + l5;
    let p10f = p9 + s5;
    let p11 = p10f + l6;
    let p12 = p11 + s6;
    let p13 = p12 + l7;
    let p14 = p13 + n7;
    assert(ser_settings(v) == p14 + l8);
    let t8 = l8 + rest;
    let t7 = n7 + t8;
    let t6b = l7 + t7;
    let t6 = s6 + t6b;
    let t5b = l6 + t6;
    let t5 = s5 + t5b;
    let t4b = l5 + t5;
    let t4 = n4 + t4b;
    let t3b = l4 + t4;
    let t3 = n3 + t3b;
    let t2b = l3 + t3;
    let t2 = n2 + t2b;
    let t1b = l2 + t2;
    let t1 = n1 + t1b;
    vstd::seq_lib::lemma_concat_associative(p14, l8, rest);
    vstd::seq_lib::lemma_concat_associative(p13, n7, t8);
    vstd::seq_lib::lemma_concat_associative(p12, l7, t7);
    vstd::seq_lib::lemma_concat_associative(p11, s6, t6b);
    vstd::seq_lib::lemma_concat_associative(p10f, l6, t6);
    vstd::seq_lib::lemma_concat_associative(p9, s5, t5b);
    vstd::seq_lib::lemma_concat_associative(p8, l5, t5);
    vstd::seq_lib::lemma_concat_associative(p7, n4, t4b);
    vstd::seq_lib::lemma_concat_associative(p6, l4, t4);
    vstd::seq_lib::lemma_concat_associative(p5, n3, t3b);
    vstd::seq_lib::lemma_concat_associative(p4, l3, t3);
    vstd::seq_lib::lemma_concat_associative(p3, n2, t2b);
    vstd::seq_lib::lemma_concat_associative(p2, l2, t2);
    vstd::seq_lib::lemma_concat_associative(l1, n1, t1b);
    assert(ser_settings(v) + rest == l1 + t1);
    lemma_parse_lit_round(l1, t1);
    assert(t1b[0] == l2[0] && !is_digit(t1b[0]));
    lemma_u32_round(v.rotation_interval, t1b);
    lemma_parse_lit_round(l2, t2);
    assert(t2b[0] == l3[0] && !is_digit(t2b[0]));
    lemma_u32_round(v.connection_timeout, t2b);
    lemma_parse_lit_round(l3, t3);
    assert(t3b[0] == l4[0] && !is_digit(t3b[0]));
    lemma_u32_round(v.retry_interval, t3b);
    lemma_parse_lit_round(l4, t4);
    assert(t4b[0] == l5[0] && !is_digit(t4b[0]));
    lemma_u32_round(v.max_retry_attempts, t4b);
    lemma_parse_lit_round(l5, t5);
    lemma_str_round(v.low_quality_resolution, t5b);
    lemma_parse_lit_round(l6, t6);
    lemma_str_round(v.high_quality_resolution, t6b);
    lemma_parse_lit_round(l7, t7);
    assert(t8[0] == l8[0] && !is_digit(t8[0]));
    lemma_u32_round(v.grid_size, t8);
    lemma_parse_lit_round(l8, rest);
}

/// Serialized comma-separated identities parse back, up to a closing
/// bracket.
proof fn lemma_users_items_round(us: Seq<UserV>, rest: Seq<char>)
    requires
        us.len() >= 1,
        rest.len() > 0,
        rest[0] == ']',
    ensures
        parse_users_items(ser_users(us) + rest) == Some((us, rest)),
    decreases us.len(),
{
    let s = ser_users(us) + rest;
    if us.len() == 1 {
        lemma_user_round(us[0], rest);
        assert(seq![us[0]] =~= us);
    } else {
        let tail = seq![','] + (ser_users(us.drop_first()) + rest);
        assert(s =~= ser_user(us[0]) + tail);
        lemma_user_round(us[0], tail);
        assert(tail[0] == ',');
        assert(tail.drop_first() =~= ser_users(us.drop_first()) + rest);
        lemma_users_items_round(us.drop_first(), rest);
        assert(seq![us[0]] + us.drop_first() =~= us);
    }
}

/// Serialized comma-separated apartments parse back, up to a closing
/// bracket.
proof fn lemma_apartments_items_round(a: Seq<ApartmentV>, rest: Seq<char>)
    requires
        a.len() >= 1,
        rest.len() > 0,
        rest[0] == ']',
    ensures
        parse_apartments_items(ser_apartments(a) + rest) == Some((a, rest)),
    decreases a.len(),
{
    let s = ser_apartments(a) + rest;
    if a.len() == 1 {
        lemma_apartment_round(a[0], rest);
        assert(seq![a[0]] =~= a);
    } else {
        let tail = seq![','] + (ser_apartments(a.drop_first()) + rest);
        assert(s =~= ser_apartment(a[0]) + tail);
        lemma_apartment_round(a[0], tail);
        assert(tail[0] == ',');
        assert(tail.drop_first() =~= ser_apartments(a.drop_first()) + rest);
        lemma_apartments_items_round(a.drop_first(), rest);
        assert(seq![a[0]] + a.drop_first() =~= a);
    }
}

/// Serialized comma-separated cameras parse back, up to a closing bracket.
proof fn lemma_cameras_items_round(c: Seq<CameraV>, rest: Seq<char>)
    requires
        c.len() >= 1,
        rest.len() > 0,
        rest[0] == ']',
    ensures
        parse_cameras_items(ser_cameras(c) + rest) == Some((c, rest)),
    decreases c.len(),
{
    let s = ser_cameras(c) + rest;
    if c.len() == 1 {
        lemma_camera_round(c[0], rest);
        assert(seq![c[0]] =~= c);
    } else {
        let tail = seq![','] + (ser_cameras(c.drop_first()) + rest);
        assert(s =~= ser_camera(c[0]) + tail);
        lemma_camera_round(c[0], tail);
        assert(tail[0] == ',');
        assert(tail.drop_first() =~= ser_cameras(c.drop_first()) + rest);
        lemma_cameras_items_round(c.drop_first(), rest);
        assert(seq![c[0]] + c.drop_first() =~= c);
    }
}

/// A serialized identity list body parses back, up to a closing bracket.
proof fn lemma_users_round(us: Seq<UserV>, rest: Seq<char>)
    requires
        rest.len() > 0,
        rest[0] == ']',
    ensures
        parse_users(ser_users(us) + rest) == Some((us, rest)),
{
    let s = ser_users(us) + rest;
    if us.len() == 0 {
        assert(s =~= rest);
    } else {
        reveal_strlit("{\"login\":");
        assert(ser_user(us[0])[0] == '{');
        assert(s[0] == '{');
        lemma_users_items_round(us, rest);
    }
}

/// A serialized apartment list body parses back, up to a closing bracket.
proof fn lemma_apartments_round(a: Seq<ApartmentV>, rest: Seq<char>)
    requires
        rest.len() > 0,
        rest[0] == ']',
    ensures
        parse_apartments(ser_apartments(a) + rest) == Some((a, rest)),
{
    let s = ser_apartments(a) + rest;
    if a.len() == 0 {
        assert(s =~= rest);
    } else {
        reveal_strlit("{\"id\":");
        assert(ser_apartment(a[0])[0] == '{');
        assert(s[0] == '{');
        lemma_apartments_items_round(a, rest);
    }
}

/// A serialized camera list body parses back, up to a closing bracket.
proof fn lemma_cameras_round(c: Seq<CameraV>, rest: Seq<char>)
    requires
        rest.len() > 0,
        rest[0] == ']',
    ensures
        parse_cameras(ser_cameras(c) + rest) == Some((c, rest)),
{
    let s = ser_cameras(c) + rest;
    if c.len() == 0 {
        assert(s =~= rest);
    } else {
        reveal_strlit("{\"id\":");
        assert(ser_camera(c[0])[0] == '{');
        assert(s[0] == '{');
        lemma_cameras_items_round(c, rest);
    }
}

/// Law: serializing a registry and parsing the document back yields an
/// equal registry, for every registry value.  Nothing is lost in the
/// round trip.
pub proof fn lemma_config_round_trip(c: ConfigV)
    ensures
        parse_config(ser_config(c)) == Some(c),
{
    let l1 = "{\"users\":["@;
    let l2 = "],\"apartments\":["@;
    let l3 = "],\"cameras\":["@;
    let l4 = "],\"settings\":"@;
    let l5 = "}"@;
    reveal_strlit("],\"apartments\":[");
    reveal_strlit("],\"cameras\":[");
    reveal_strlit("],\"settings\":");
    let us = ser_users(c.users);
    let aps = ser_apartments(c.apartments);
    let cms = ser_cameras(c.cameras);
    let stg = ser_settings(c.settings);
    let p2 = l1 + us;
    let p3 = p2 + l2;
    let p4 = p3 + aps;
    let p5 = p4 + l3;
    let p6 = p5 + cms;
    let p7 = p6 + l4;
    let p8 = p7 + stg;
    assert(ser_config(c) == p8 + l5);
    let rest: Seq<char> = Seq::empty();
    let t5 = l5 + rest;
    let t4 = stg + t5;
    let t3b = l4 + t4;
    let t3 = cms + t3b;
    let t2b = l3 + t3;
    let t2 = aps + t2b;
    let t1b = l2 + t2;
    let t1 = us + t1b;
    assert(ser_config(c) + rest == ser_config(c)) by {
        assert(ser_config(c) + rest =~= ser_config(c));
    }
    vstd::seq_lib::lemma_concat_associative(p8, l5, rest);
    vstd::seq_lib::lemma_concat_associative(p7, stg, t5);
    vstd::seq_lib::lemma_concat_associative(p6, l4, t4);
    vstd::seq_lib::lemma_concat_associative(p5, cms, t3b);
    vstd::seq_lib::lemma_concat_associative(p4, l3, t3);
    vstd::seq_lib::lemma_concat_associative(p3, aps, t2b);
    vstd::seq_lib::lemma_concat_associative(p2, l2, t2);
    vstd::seq_lib::lemma_concat_associative(l1, us, t1b);
    assert(ser_config(c) == l1 + t1);
    lemma_parse_lit_round(l1, t1);
    assert(t1b[0] == ']');
    lemma_users_round(c.users, t1b);
    lemma_parse_lit_round(l2, t2);
    assert(t2b[0] == ']');
    lemma_apartments_round(c.apartments, t2b);
    lemma_parse_lit_round(l3, t3);
    assert(t3b[0] == ']');
    lemma_cameras_round(c.cameras, t3b);
    lemma_parse_lit_round(l4, t4);
    lemma_settings_round(c.settings, t5);
    lemma_parse_lit_round(l5, rest);
    let parsed = ConfigV {
        users: c.users,
        apartments: c.apartments,
        cameras: c.cameras,
        settings: c.settings,
    };
    assert(parsed == c);
}


// ---------------------------------------------------------------------
// The executable serializer
// ---------------------------------------------------------------------

/// The character of a hexadecimal digit value.
fn hex_digit_exec(n: u8) -> (c: char)
    requires
        n < 16,
    ensures
        c == hex_digit(n as int),
{
    if n < 10 {
        (48 + n) as char
    } else {
        (87 + n) as char
    }
}

/// Appends a quoted, escaped string.
fn w_str(out: &mut String, s: &str)
    ensures
        final(out)@ == old(out)@ + ser_str(s@),
{
    push_char(out, '"');
    let n = s.unicode_len();
    let mut i: usize = 0;
    while i < n
        invariant
            n == s@.len(),
            i <= n,
            out@ == old(out)@ + seq!['"'] + esc(s@.take(i as int)),
        decreases n - i,
    {
        let ghost taken = s@.take(i as int);
        let c = s.get_char(i);
        proof {
            assert(s@.take(i as int + 1) =~= taken + seq![c]);
            lemma_esc_append(taken, seq![c]);
            assert(seq![c].drop_first() =~= Seq::<char>::empty());
            assert(esc(Seq::<char>::empty()) == Seq::<char>::empty());
            assert(esc(seq![c]) == esc_char(seq![c][0]) + esc(seq![c].drop_first()));
            assert(esc(seq![c]) =~= esc_char(c));
        }
        if c == '"' {
            push_char(out, '\\');
            push_char(out, '"');
        } else if c == '\\' {
            push_char(out, '\\');
            push_char(out, '\\');
        } else if (c as u32) < 32 {
            let code = c as u32;
            push_char(out, '\\');
            push_char(out, 'u');
            push_char(out, '0');
            push_char(out, '0');
            push_char(out, hex_digit_exec((code / 16) as u8));
            push_char(out, hex_digit_exec((code % 16) as u8));
        } else {
            push_char(out, c);
        }
        proof {
            assert(out@ =~= old(out)@ + seq!['"'] + esc(s@.take(i as int + 1)));
        }
        i = i + 1;
    }
    push_char(out, '"');
    proof {
        assert(s@.take(n as int) =~= s@);
        assert(out@ =~= old(out)@ + ser_str(s@));
    }
}

/// Appends a number in decimal.
fn w_u32(out: &mut String, n: u32)
    ensures
        final(out)@ == old(out)@ + ser_u32(n),
    decreases n,
{
    if n < 10 {
        push_char(out, hex_digit_exec(n as u8));
        proof {
            assert(old(out)@.push(hex_digit(n as int)) =~= old(out)@ + dec_rep(n as nat));
        }
    } else {
        w_u32(out, n / 10);
        push_char(out, hex_digit_exec((n % 10) as u8));
        proof {
            assert((old(out)@ + dec_rep((n / 10) as nat)).push(hex_digit((n % 10) as int)) =~= old(
                out,
            )@ + dec_rep(n as nat));
        }
    }
}

/// Appends a boolean literal.
fn w_bool(out: &mut String, b: bool)
    ensures
        final(out)@ == old(out)@ + ser_bool(b),
{
    if b {
        out.append("true");
    } else {
        out.append("false");
    }
}

/// Appends one identity object.
fn w_user(out: &mut String, u: &User)
    ensures
        final(out)@ == old(out)@ + ser_user(u@),
{
    let ghost o = old(out)@;
    let ghost l1 = "{\"login\":"@;
    let ghost l2 = ",\"password_hash\":"@;
    let ghost l3 = ",\"role\":"@;
    out.append("{\"login\":");
    w_str(out, u.login.as_str());
    proof {
        vstd::seq_lib::lemma_concat_associative(o, l1, ser_str(u@.login));
    }
    let ghost p2 = l1 + ser_str(u@.login);
    out.append(",\"password_hash\":");
    proof {
        vstd::seq_lib::lemma_concat_associative(o, p2, l2);
    }
    let ghost p3 = p2 + l2;
    w_str(out, u.password_hash.as_str());
    proof {
        vstd::seq_lib::lemma_concat_associative(o, p3, ser_str(u@.password_hash));
    }
    let ghost p4 = p3 + ser_str(u@.password_hash);
    out.append(",\"role\":");
    proof {
        vstd::seq_lib::lemma_concat_associative(o, p4, l3);
    }
    let ghost p5 = p4 + l3;
    match u.role {
        UserRole::Admin => out.append("\"Admin\""),
        UserRole::Operator => out.append("\"Operator\""),
    }
    proof {
        vstd::seq_lib::lemma_concat_associative(o, p5, ser_role(u@.role));
    }
    let ghost p6 = p5 + ser_role(u@.role);
    out.append("}");
    proof {
        vstd::seq_lib::lemma_concat_associative(o, p6, "}"@);
    }
}

/// Appends one apartment object.
fn w_apartment(out: &mut String, a: &Apartment)
    ensures
        final(out)@ == old(out)@ + ser_apartment(a@),
{
    let ghost o = old(out)@;
    let ghost l1 = "{\"id\":"@;
    let ghost l2 = ",\"apartment_name\":"@;
    let ghost l3 = ",\"apartment_number\":"@;
    out.append("{\"id\":");
    w_u32(out, a.id);
    proof {
        vstd::seq_lib::lemma_concat_associative(o, l1, ser_u32(a@.id));
    }
    let ghost p2 = l1 + ser_u32(a@.id);
    out.append(",\"apartment_name\":");
    proof {
        vstd::seq_lib::lemma_concat_associative(o, p2, l2);
    }
    let ghost p3 = p2 + l2;
    w_str(out, a.apartment_name.as_str());
    proof {
        vstd::seq_lib::lemma_concat_associative(o, p3, ser_str(a@.apartment_name));
    }
    let ghost p4 = p3 + ser_str(a@.apartment_name);
    out.append(",\"apartment_number\":");
    proof {
        vstd::seq_lib::lemma_concat_associative(o, p4, l3);
    }
    let ghost p5 = p4 + l3;
    w_str(out, a.apartment_number.as_str());
    proof {
        vstd::seq_lib::lemma_concat_associative(o, p5, ser_str(a@.apartment_number));
    }
    let ghost p6 = p5 + ser_str(a@.apartment_number);
    out.append("}");
    proof {
        vstd::seq_lib::lemma_concat_associative(o, p6, "}"@);
    }
}

/// Appends one camera object.
fn w_camera(out: &mut String, c: &Camera)
    ensures
        final(out)@ == old(out)@ + ser_camera(c@),
{
    let ghost o = old(out)@;
    let ghost l1 = "{\"id\":"@;
    let ghost l2 = ",\"camera_name\":"@;
    let ghost l3 = ",\"apartment_name\":"@;
    let ghost l4 = ",\"rtsp_link\":"@;
    let ghost l5 = ",\"enabled\":"@;
    out.append("{\"id\":");
    w_u32(out, c.id);
    proof {
        vstd::seq_lib::lemma_concat_associative(o, l1, ser_u32(c@.id));
    }
    let ghost p2 = l1 + ser_u32(c@.id);
    out.append(",\"camera_name\":");
    proof {
        vstd::seq_lib::lemma_concat_associative(o, p2, l2);
    }
    let ghost p3 = p2 + l2;
    w_str(out, c.camera_name.as_str());
    proof {
        vstd::seq_lib::lemma_concat_associative(o, p3, ser_str(c@.camera_name));
    }
    let ghost p4 = p3 + ser_str(c@.camera_name);
    out.append(",\"apartment_name\":");
    proof {
        vstd::seq_lib::lemma_concat_associative(o, p4, l3);
    }
    let ghost p5 = p4 + l3;
    w_str(out, c.apartment_name.as_str());
    proof {
        vstd::seq_lib::lemma_concat_associative(o, p5, ser_str(c@.apartment_name));
    }
    let ghost p6 = p5 + ser_str(c@.apartment_name);
    out.append(",\"rtsp_link\":");
    proof {
        vstd::seq_lib::lemma_concat_associative(o, p6, l4);
    }
    let ghost p7 = p6 + l4;
    w_str(out, c.rtsp_link.as_str());
    proof {
        vstd::seq_lib::lemma_concat_associative(o, p7, ser_str(c@.rtsp_link));
    }
    let ghost p8 = p7 + ser_str(c@.rtsp_link);
    out.append(",\"enabled\":");
    proof {
        vstd::seq_lib::lemma_concat_associative(o, p8, l5);
    }
    let ghost p9 = p8 + l5;
    w_bool(out, c.enabled);
    proof {
        vstd::seq_lib::lemma_concat_associative(o, p9, ser_bool(c@.enabled));
    }
    let ghost p10f = p9 + ser_bool(c@.enabled);
    out.append("}");
    proof {
        vstd::seq_lib::lemma_concat_associative(o, p10f, "}"@);
    }
}

/// Appends the settings object.
fn w_settings(out: &mut String, v: &Settings)
    ensures
        final(out)@ == old(out)@ + ser_settings(v@),
{
    let ghost o = old(out)@;
    let ghost l1 = "{\"rotation_interval\":"@;
    let ghost l2 = ",\"connection_timeout\":"@;
    let ghost l3 = ",\"retry_interval\":"@;
    let ghost l4 = ",\"max_retry_attempts\":"@;
    let ghost l5 = ",\"low_quality_resolution\":"@;
    let ghost l6 = ",\"high_quality_resolution\":"@;
    let ghost l7 = ",\"grid_size\":"@;
    out.append("{\"rotation_interval\":");
    w_u32(out, v.rotation_interval);
    proof {
        vstd::seq_lib::lemma_concat_associative(o, l1, ser_u32(v@.rotation_interval));
    }
    let ghost p2 = l1 + ser_u32(v@.rotation_interval);
    out.append(",\"connection_timeout\":");
    proof {
        vstd::seq_lib::lemma_concat_associative(o, p2, l2);
    }
    let ghost p3 = p2 + l2;
    w_u32(out, v.connection_timeout);
    proof {
        vstd::seq_lib::lemma_concat_associative(o, p3, ser_u32(v@.connection_timeout));
    }
    let ghost p4 = p3 + ser_u32(v@.connection_timeout);
    out.append(",\"retry_interval\":");
    proof {
        vstd::seq_lib::lemma_concat_associative(o, p4, l3);
    }
    let ghost p5 = p4 + l3;
    w_u32(out, v.retry_interval);
    proof {
        vstd::seq_lib::lemma_concat_associative(o, p5, ser_u32(v@.retry_interval));
    }
    let ghost p6 = p5 + ser_u32(v@.retry_interval);
    out.append(",\"max_retry_attempts\":");
    proof {
        vstd::seq_lib::lemma_concat_associative(o, p6, l4);
    }
    let ghost p7 = p6 + l4;
    w_u32(out, v.max_retry_attempts);
    proof {
        vstd::seq_lib::lemma_concat_associative(o, p7, ser_u32(v@.max_retry_attempts));
    }
    let ghost p8 = p7 + ser_u32(v@.max_retry_attempts);
    out.append(",\"low_quality_resolution\":");
    proof {
        vstd::seq_lib::lemma_concat_associative(o, p8, l5);
    }
    let ghost p9 = p8 + l5;
    w_str(out, v.low_quality_resolution.as_str());
    proof {
        vstd::seq_lib::lemma_concat_associative(o, p9, ser_str(v@.low_quality_resolution));
    }
    let ghost p10f = p9 + ser_str(v@.low_quality_resolution);
    out.append(",\"high_quality_resolution\":");
    proof {
        vstd::seq_lib::lemma_concat_associative(o, p10f, l6);
    }
    let ghost p11 = p10f + l6;
    w_str(out, v.high_quality_resolution.as_str());
    proof {
        vstd::seq_lib::lemma_concat_associative(o, p11, ser_str(v@.high_quality_resolution));
    }
    let ghost p12 = p11 + ser_str(v@.high_quality_resolution);
    out.append(",\"grid_size\":");
    proof {
        vstd::seq_lib::lemma_concat_associative(o, p12, l7);
    }
    let ghost p13 = p12 + l7;
    w_u32(out, v.grid_size);
    proof {
        vstd::seq_lib::lemma_concat_associative(o, p13, ser_u32(v@.grid_size));
    }
    let ghost p14 = p13 + ser_u32(v@.grid_size);
    out.append("}");
    proof {
        vstd::seq_lib::lemma_concat_associative(o, p14, "}"@);
    }
}

/// Appends the identities from index `i` on, comma-separated.
fn w_users_from(out: &mut String, users: &Vec<User>, i: usize)
    requires
        i <= users@.len(),
    ensures
        final(out)@ == old(out)@ + ser_users(users@.map_values(|u: User| u@).skip(i as int)),
    decreases users@.len() - i,
{
    let ghost o = old(out)@;
    let ghost mapped = users@.map_values(|u: User| u@);
    if i == users.len() {
        proof {
            assert(mapped.skip(i as int) =~= Seq::<UserV>::empty());
            assert(o + ser_users(mapped.skip(i as int)) =~= o);
        }
    } else {
        w_user(out, &users[i]);
        proof {
            assert(mapped.skip(i as int)[0] == mapped[i as int]);
        }
        if i + 1 < users.len() {
            push_char(out, ',');
            w_users_from(out, users, i + 1);
            proof {
                assert(mapped.skip(i as int).drop_first() =~= mapped.skip(i as int + 1));
                assert(mapped.skip(i as int).len() > 1);
                vstd::seq_lib::lemma_concat_associative(
                    o,
                    ser_user(mapped[i as int]),
                    seq![','] + ser_users(mapped.skip(i as int + 1)),
                );
                assert((o + ser_user(mapped[i as int])).push(',') =~= o + (ser_user(
                    mapped[i as int],
                ) + seq![',']));
                vstd::seq_lib::lemma_concat_associative(
                    o,
                    ser_user(mapped[i as int]) + seq![','],
                    ser_users(mapped.skip(i as int + 1)),
                );
                vstd::seq_lib::lemma_concat_associative(
                    ser_user(mapped[i as int]),
                    seq![','],
                    ser_users(mapped.skip(i as int + 1)),
                );
            }
        } else {
            proof {
                assert(mapped.skip(i as int).len() == 1);
            }
        }
    }
}

/// Appends the apartments from index `i` on, comma-separated.
fn w_apartments_from(out: &mut String, apartments: &Vec<Apartment>, i: usize)
    requires
        i <= apartments@.len(),
    ensures
        final(out)@ == old(out)@ + ser_apartments(
            apartments@.map_values(|a: Apartment| a@).skip(i as int),
        ),
    decreases apartments@.len() - i,
{
    let ghost o = old(out)@;
    let ghost mapped = apartments@.map_values(|a: Apartment| a@);
    if i == apartments.len() {
        proof {
            assert(mapped.skip(i as int) =~= Seq::<ApartmentV>::empty());
            assert(o + ser_apartments(mapped.skip(i as int)) =~= o);
        }
    } else {
        w_apartment(out, &apartments[i]);
        proof {
            assert(mapped.skip(i as int)[0] == mapped[i as int]);
        }
        if i + 1 < apartments.len() {
            push_char(out, ',');
            w_apartments_from(out, apartments, i + 1);
            proof {
                assert(mapped.skip(i as int).drop_first() =~= mapped.skip(i as int + 1));
                assert(mapped.skip(i as int).len() > 1);
                vstd::seq_lib::lemma_concat_associative(
                    o,
                    ser_apartment(mapped[i as int]),
                    seq![','] + ser_apartments(mapped.skip(i as int + 1)),
                );
                assert((o + ser_apartment(mapped[i as int])).push(',') =~= o + (ser_apartment(
                    mapped[i as int],
                ) + seq![',']));
                vstd::seq_lib::lemma_concat_associative(
                    o,
                    ser_apartment(mapped[i as int]) + seq![','],
                    ser_apartments(mapped.skip(i as int + 1)),
                );
                vstd::seq_lib::lemma_concat_associative(
                    ser_apartment(mapped[i as int]),
                    seq![','],
                    ser_apartments(mapped.skip(i as int + 1)),
                );
            }
        } else {
            proof {
                assert(mapped.skip(i as int).len() == 1);
            }
        }
    }
}

/// Appends the cameras from index `i` on, comma-separated.
fn w_cameras_from(out: &mut String, cameras: &Vec<Camera>, i: usize)
    requires
        i <= cameras@.len(),
    ensures
        final(out)@ == old(out)@ + ser_cameras(cameras@.map_values(|c: Camera| c@).skip(i as int)),
    decreases cameras@.len() - i,
{
    let ghost o = old(out)@;
    let ghost mapped = cameras@.map_values(|c: Camera| c@);
    if i == cameras.len() {
        proof {
            assert(mapped.skip(i as int) =~= Seq::<CameraV>::empty());
            assert(o + ser_cameras(mapped.skip(i as int)) =~= o);
        }
    } else {
        w_camera(out, &cameras[i]);
        proof {
            assert(mapped.skip(i as int)[0] == mapped[i as int]);
        }
        if i + 1 < cameras.len() {
            push_char(out, ',');
            w_cameras_from(out, cameras, i + 1);
            proof {
                assert(mapped.skip(i as int).drop_first() =~= mapped.skip(i as int + 1));
                assert(mapped.skip(i as int).len() > 1);
                vstd::seq_lib::lemma_concat_associative(
                    o,
                    ser_camera(mapped[i as int]),
                    seq![','] + ser_cameras(mapped.skip(i as int + 1)),
                );
                assert((o + ser_camera(mapped[i as int])).push(',') =~= o + (ser_camera(
                    mapped[i as int],
                ) + seq![',']));
                vstd::seq_lib::lemma_concat_associative(
                    o,
                    ser_camera(mapped[i as int]) + seq![','],
                    ser_cameras(mapped.skip(i as int + 1)),
                );
                vstd::seq_lib::lemma_concat_associative(
                    ser_camera(mapped[i as int]),
                    seq![','],
                    ser_cameras(mapped.skip(i as int + 1)),
                );
            }
        } else {
            proof {
                assert(mapped.skip(i as int).len() == 1);
            }
        }
    }
}

impl Config {
    /// Serializes the registry to its structured text document.  The result
    /// is exactly [`ser_config`] of the registry; serialization never fails.
    pub fn to_json(&self) -> (r: Result<String, SurveillanceError>)
        ensures
            r matches Ok(s) && s@ == ser_config(self@),
    {
        let ghost l1 = "{\"users\":["@;
        let ghost l2 = "],\"apartments\":["@;
        let ghost l3 = "],\"cameras\":["@;
        let ghost l4 = "],\"settings\":"@;
        let mut out = String::new();
        let ghost o = out@;
        out.append("{\"users\":[");
        proof {
            assert(o + l1 =~= l1);
        }
        w_users_from(&mut out, &self.users, 0);
        proof {
            assert(self@.users.skip(0) =~= self@.users);
            vstd::seq_lib::lemma_concat_associative(o, l1, ser_users(self@.users));
            assert(o + (l1 + ser_users(self@.users)) =~= l1 + ser_users(self@.users));
        }
        let ghost p2 = l1 + ser_users(self@.users);
        out.append("],\"apartments\":[");
        let ghost p3 = p2 + l2;
        w_apartments_from(&mut out, &self.apartments, 0);
        proof {
            assert(self@.apartments.skip(0) =~= self@.apartments);
        }
        let ghost p4 = p3 + ser_apartments(self@.apartments);
        out.append("],\"cameras\":[");
        let ghost p5 = p4 + l3;
        w_cameras_from(&mut out, &self.cameras, 0);
        proof {
            assert(self@.cameras.skip(0) =~= self@.cameras);
        }
        let ghost p6 = p5 + ser_cameras(self@.cameras);
        out.append("],\"settings\":");
        let ghost p7 = p6 + l4;
        w_settings(&mut out, &self.settings);
        let ghost p8 = p7 + ser_settings(self@.settings);
        out.append("}");
        proof {
            assert(out@ == p8 + "}"@);
            assert(out@ == ser_config(self@));
        }
        Ok(out)
    }
}

// ---------------------------------------------------------------------
// The executable parser
// ---------------------------------------------------------------------

/// The suffix of a sequence from index `i`.
pub open spec fn suf(s: Seq<char>, i: int) -> Seq<char> {
    s.subrange(i, s.len() as int)
}

/// Whether `c` is a decimal digit.
fn is_digit_exec(c: char) -> (r: bool)
    ensures
        r == is_digit(c),
{
    let n = c as u32;
    48 <= n && n <= 57
}

/// Whether `c` is a lower-case hexadecimal digit.
fn is_hex_digit_exec(c: char) -> (r: bool)
    ensures
        r == is_hex_digit(c),
{
    let n = c as u32;
    (48 <= n && n <= 57) || (97 <= n && n <= 102)
}

/// The value of a lower-case hexadecimal digit.
fn hex_val_exec(c: char) -> (r: u8)
    requires
        is_hex_digit(c),
    ensures
        r as int == hex_val(c),
        r < 16,
{
    let n = c as u32;
    if n <= 57 {
        (n - 48) as u8
    } else {
        (n - 87) as u8
    }
}

/// Consumes the exact literal `l` at index `i`.
fn p_lit(v: &Vec<char>, i: usize, l: &str) -> (r: Option<usize>)
    requires
        i <= v@.len(),
    ensures
        match r {
            Some(j) => i <= j <= v@.len() && parse_lit(suf(v@, i as int), l@) == Some(
                suf(v@, j as int),
            ),
            None => parse_lit(suf(v@, i as int), l@) is None,
        },
{
    let n = l.unicode_len();
    if v.len() - i < n {
        proof {
            assert(suf(v@, i as int).len() < l@.len());
        }
        return None;
    }
    let mut t: usize = 0;
    while t < n
        invariant
            i <= v@.len(),
            v@.len() == v.len(),
            n == l@.len(),
            n <= v@.len() - i,
            t <= n,
            forall|k: int| 0 <= k < t ==> v@[i + k] == l@[k],
        decreases n - t,
    {
        if v[i + t] != l.get_char(t) {
            proof {
                assert(parse_lit(suf(v@, i as int), l@) is None) by {
                    let s = suf(v@, i as int);
                    if s.len() >= l@.len() && s.subrange(0, l@.len() as int) == l@ {
                        assert(s.subrange(0, l@.len() as int)[t as int] == s[t as int]);
                        assert(s[t as int] == v@[i + t]);
                    }
                }
            }
            return None;
        }
        t = t + 1;
    }
    proof {
        let s = suf(v@, i as int);
        assert(s.subrange(0, n as int) =~= l@);
        assert(s.skip(n as int) =~= suf(v@, i as int + n as int));
    }
    Some(i + n)
}

/// Consumes a quoted string at index `i`, undoing the escapes.
fn p_string(v: &Vec<char>, i: usize) -> (r: Option<(Vec<char>, usize)>)
    requires
        i <= v@.len(),
    ensures
        match r {
            Some(p) => i <= p.1 <= v@.len() && parse_string(suf(v@, i as int)) == Some(
                (p.0@, suf(v@, p.1 as int)),
            ),
            None => parse_string(suf(v@, i as int)) is None,
        },
{
    if i == v.len() {
        return None;
    }
    if v[i] != '"' {
        proof {
            assert(suf(v@, i as int)[0] == v@[i as int]);
        }
        return None;
    }
    proof {
        assert(suf(v@, i as int)[0] == v@[i as int]);
        assert(suf(v@, i as int).drop_first() =~= suf(v@, i as int + 1));
    }
    let ghost start = suf(v@, i as int + 1);
    let mut acc: Vec<char> = Vec::new();
    let mut c: usize = i + 1;
    proof {
        let opt = parse_str_body(suf(v@, i as int + 1));
        if opt is Some {
            assert(Seq::<char>::empty() + opt.unwrap().0 =~= opt.unwrap().0);
        }
    }
    loop
        invariant
            i + 1 <= c <= v@.len(),
            start == suf(v@, i as int + 1),
            parse_string(suf(v@, i as int)) == parse_str_body(start),
            parse_str_body(start) == (match parse_str_body(suf(v@, c as int)) {
                Some(p) => Some((acc@ + p.0, p.1)),
                None => None::<(Seq<char>, Seq<char>)>,
            }),
        decreases v@.len() - c,
    {
        if c == v.len() {
            proof {
                assert(suf(v@, c as int).len() == 0);
            }
            return None;
        }
        let ch = v[c];
        proof {
            assert(suf(v@, c as int)[0] == v@[c as int]);
        }
        if ch == '"' {
            proof {
                assert(suf(v@, c as int).drop_first() =~= suf(v@, c as int + 1));
                assert(acc@ + Seq::<char>::empty() =~= acc@);
            }
            return Some((acc, c + 1));
        } else if ch == '\\' {
            if c + 1 == v.len() {
                proof {
                    assert(suf(v@, c as int).len() == 1);
                }
                return None;
            }
            let e = v[c + 1];
            proof {
                assert(suf(v@, c as int)[1] == v@[c as int + 1]);
            }
            if e == '"' || e == '\\' {
                let ghost accold = acc@;
                acc.push(e);
                proof {
                    assert(suf(v@, c as int).skip(2) =~= suf(v@, c as int + 2));
                    assert(acc@ =~= accold + seq![e]);
                    let opt = parse_str_body(suf(v@, c as int + 2));
                    if opt is Some {
                        vstd::seq_lib::lemma_concat_associative(accold, seq![e], opt.unwrap().0);
                    }
                }
                c = c + 2;
            } else if e == 'u' {
                if v.len() - c < 6 {
                    proof {
                        assert(suf(v@, c as int).len() < 6);
                    }
                    return None;
                }
                proof {
                    assert(suf(v@, c as int)[2] == v@[c as int + 2]);
                    assert(suf(v@, c as int)[3] == v@[c as int + 3]);
                    assert(suf(v@, c as int)[4] == v@[c as int + 4]);
                    assert(suf(v@, c as int)[5] == v@[c as int + 5]);
                }
                if v[c + 2] != '0' || v[c + 3] != '0' {
                    return None;
                }
                if !is_hex_digit_exec(v[c + 4]) || !is_hex_digit_exec(v[c + 5]) {
                    return None;
                }
                let hv: u8 = hex_val_exec(v[c + 4]) * 16 + hex_val_exec(v[c + 5]);
                if hv >= 32 {
                    return None;
                }
                let ghost accold = acc@;
                acc.push(hv as char);
                proof {
                    let s = suf(v@, c as int);
                    assert(s.skip(6) =~= suf(v@, c as int + 6));
                    assert(hv as int == hex_val(s[4]) * 16 + hex_val(s[5]));
                    assert((hv as char) == ((hex_val(s[4]) * 16 + hex_val(s[5])) as u8) as char);
                    assert(acc@ =~= accold + seq![hv as char]);
                    let opt = parse_str_body(suf(v@, c as int + 6));
                    if opt is Some {
                        vstd::seq_lib::lemma_concat_associative(
                            accold,
                            seq![hv as char],
                            opt.unwrap().0,
                        );
                    }
                }
                c = c + 6;
            } else {
                return None;
            }
        } else {
            let ghost accold = acc@;
            acc.push(ch);
            proof {
                assert(suf(v@, c as int).drop_first() =~= suf(v@, c as int + 1));
                assert(acc@ =~= accold + seq![ch]);
                let opt = parse_str_body(suf(v@, c as int + 1));
                if opt is Some {
                    vstd::seq_lib::lemma_concat_associative(accold, seq![ch], opt.unwrap().0);
                }
            }
            c = c + 1;
        }
    }
}

/// Consumes a decimal number at index `i`.
fn p_u32(v: &Vec<char>, i: usize) -> (r: Option<(u32, usize)>)
    requires
        i <= v@.len(),
    ensures
        match r {
            Some(p) => i <= p.1 <= v@.len() && parse_u32(suf(v@, i as int)) == Some(
                (p.0, suf(v@, p.1 as int)),
            ),
            None => parse_u32(suf(v@, i as int)) is None,
        },
{
    if i == v.len() {
        return None;
    }
    if !is_digit_exec(v[i]) {
        proof {
            assert(suf(v@, i as int)[0] == v@[i as int]);
        }
        return None;
    }
    proof {
        assert(suf(v@, i as int)[0] == v@[i as int]);
    }
    let mut acc: u32 = 0;
    let mut c: usize = i;
    loop
        invariant
            i <= c <= v@.len(),
            i < v@.len() && is_digit(v@[i as int]) && suf(v@, i as int)[0] == v@[i as int],
            parse_u32_loop(suf(v@, i as int), 0) == parse_u32_loop(suf(v@, c as int), acc),
        decreases v@.len() - c,
    {
        if c == v.len() {
            proof {
                assert(suf(v@, c as int).len() == 0);
            }
            return Some((acc, c));
        }
        let ch = v[c];
        proof {
            assert(suf(v@, c as int)[0] == v@[c as int]);
        }
        if !is_digit_exec(ch) {
            return Some((acc, c));
        }
        let d: u32 = (ch as u32) - 48;
        let wide: u64 = acc as u64 * 10 + d as u64;
        if wide > u32::MAX as u64 {
            return None;
        }
        proof {
            assert(suf(v@, c as int).drop_first() =~= suf(v@, c as int + 1));
        }
        acc = wide as u32;
        c = c + 1;
    }
}

/// Consumes a boolean literal at index `i`.
fn p_bool(v: &Vec<char>, i: usize) -> (r: Option<(bool, usize)>)
    requires
        i <= v@.len(),
    ensures
        match r {
            Some(p) => i <= p.1 <= v@.len() && parse_bool(suf(v@, i as int)) == Some(
                (p.0, suf(v@, p.1 as int)),
            ),
            None => parse_bool(suf(v@, i as int)) is None,
        },
{
    match p_lit(v, i, "true") {
        Some(j) => Some((true, j)),
        None => match p_lit(v, i, "false") {
            Some(j) => Some((false, j)),
            None => None,
        },
    }
}

/// Consumes a quoted role name at index `i`.
fn p_role(v: &Vec<char>, i: usize) -> (r: Option<(UserRole, usize)>)
    requires
        i <= v@.len(),
    ensures
        match r {
            Some(p) => i <= p.1 <= v@.len() && parse_role(suf(v@, i as int)) == Some(
                (p.0, suf(v@, p.1 as int)),
            ),
            None => parse_role(suf(v@, i as int)) is None,
        },
{
    match p_lit(v, i, "\"Admin\"") {
        Some(j) => Some((UserRole::Admin, j)),
        None => match p_lit(v, i, "\"Operator\"") {
            Some(j) => Some((UserRole::Operator, j)),
            None => None,
        },
    }
}

/// Consumes one identity object at index `i`.
fn p_user(v: &Vec<char>, i: usize) -> (r: Option<(User, usize)>)
    requires
        i <= v@.len(),
    ensures
        match r {
            Some(p) => i <= p.1 <= v@.len() && parse_user(suf(v@, i as int)) == Some(
                (p.0@, suf(v@, p.1 as int)),
            ),
            None => parse_user(suf(v@, i as int)) is None,
        },
{
    let j1 = match p_lit(v, i, "{\"login\":") {
        Some(j) => j,
        None => {
            return None;
        },
    };
    let (login, j2) = match p_string(v, j1) {
        Some(p) => p,
        None => {
            return None;
        },
    };
    let j3 = match p_lit(v, j2, ",\"password_hash\":") {
        Some(j) => j,
        None => {
            return None;
        },
    };
    let (password_hash, j4) = match p_string(v, j3) {
        Some(p) => p,
        None => {
            return None;
        },
    };
    let j5 = match p_lit(v, j4, ",\"role\":") {
        Some(j) => j,
        None => {
            return None;
        },
    };
    let (role, j6) = match p_role(v, j5) {
        Some(p) => p,
        None => {
            return None;
        },
    };
    let j7 = match p_lit(v, j6, "}") {
        Some(j) => j,
        None => {
            return None;
        },
    };
    let user = User {
        login: crate::text::string_of(&login),
        password_hash: crate::text::string_of(&password_hash),
        role,
    };
    Some((user, j7))
}

/// Consumes one apartment object at index `i`.
fn p_apartment(v: &Vec<char>, i: usize) -> (r: Option<(Apartment, usize)>)
    requires
        i <= v@.len(),
    ensures
        match r {
            Some(p) => i <= p.1 <= v@.len() && parse_apartment(suf(v@, i as int)) == Some(
                (p.0@, suf(v@, p.1 as int)),
            ),
            None => parse_apartment(suf(v@, i as int)) is None,
        },
{
    let j1 = match p_lit(v, i, "{\"id\":") {
        Some(j) => j,
        None => {
            return None;
        },
    };
    let (id, j2) = match p_u32(v, j1) {
        Some(p) => p,
        None => {
            return None;
        },
    };
    let j3 = match p_lit(v, j2, ",\"apartment_name\":") {
        Some(j) => j,
        None => {
            return None;
        },
    };
    let (apartment_name, j4) = match p_string(v, j3) {
        Some(p) => p,
        None => {
            return None;
        },
    };
    let j5 = match p_lit(v, j4, ",\"apartment_number\":") {
        Some(j) => j,
        None => {
            return None;
        },
    };
    let (apartment_number, j6) = match p_string(v, j5) {
        Some(p) => p,
        None => {
            return None;
        },
    };
    let j7 = match p_lit(v, j6, "}") {
        Some(j) => j,
        None => {
            return None;
        },
    };
    let apartment = Apartment {
        id,
        apartment_name: crate::text::string_of(&apartment_name),
        apartment_number: crate::text::string_of(&apartment_number),
    };
    Some((apartment, j7))
}

/// Consumes one camera object at index `i`.
fn p_camera(v: &Vec<char>, i: usize) -> (r: Option<(Camera, usize)>)
    requires
        i <= v@.len(),
    ensures
        match r {
            Some(p) => i <= p.1 <= v@.len() && parse_camera(suf(v@, i as int)) == Some(
                (p.0@, suf(v@, p.1 as int)),
            ),
            None => parse_camera(suf(v@, i as int)) is None,
        },
{
    let j1 = match p_lit(v, i, "{\"id\":") {
        Some(j) => j,
        None => {
            return None;
        },
    };
    let (id, j2) = match p_u32(v, j1) {
        Some(p) => p,
        None => {
            return None;
        },
    };
    let j3 = match p_lit(v, j2, ",\"camera_name\":") {
        Some(j) => j,
        None => {
            return None;
        },
    };
    let (camera_name, j4) = match p_string(v, j3) {
        Some(p) => p,
        None => {
            return None;
        },
    };
    let j5 = match p_lit(v, j4, ",\"apartment_name\":") {
        Some(j) => j,
        None => {
            return None;
        },
    };
    let (apartment_name, j6) = match p_string(v, j5) {
        Some(p) => p,
        None => {
            return None;
        },
    };
    let j7 = match p_lit(v, j6, ",\"rtsp_link\":") {
        Some(j) => j,
        None => {
            return None;
        },
    };
    let (rtsp_link, j8) = match p_string(v, j7) {
        Some(p) => p,
        None => {
            return None;
        },
    };
    let j9 = match p_lit(v, j8, ",\"enabled\":") {
        Some(j) => j,
        None => {
            return None;
        },
    };
    let (enabled, j10) = match p_bool(v, j9) {
        Some(p) => p,
        None => {
            return None;
        },
    };
    let j11 = match p_lit(v, j10, "}") {
        Some(j) => j,
        None => {
            return None;
        },
    };
    let camera = Camera {
        id,
        camera_name: crate::text::string_of(&camera_name),
        apartment_name: crate::text::string_of(&apartment_name),
        rtsp_link: crate::text::string_of(&rtsp_link),
        enabled,
    };
    Some((camera, j11))
}

/// Consumes the settings object at index `i`.
fn p_settings(v: &Vec<char>, i: usize) -> (r: Option<(Settings, usize)>)
    requires
        i <= v@.len(),
    ensures
        match r {
            Some(p) => i <= p.1 <= v@.len() && parse_settings(suf(v@, i as int)) == Some(
                (p.0@, suf(v@, p.1 as int)),
            ),
            None => parse_settings(suf(v@, i as int)) is None,
        },
{
    let j1 = match p_lit(v, i, "{\"rotation_interval\":") {
        Some(j) => j,
        None => {
            return None;
        },
    };
    let (rotation_interval, j2) = match p_u32(v, j1) {
        Some(p) => p,
        None => {
            return None;
        },
    };
    let j3 = match p_lit(v, j2, ",\"connection_timeout\":") {
        Some(j) => j,
        None => {
            return None;
        },
    };
    let (connection_timeout, j4) = match p_u32(v, j3) {
        Some(p) => p,
        None => {
            return None;
        },
    };
    let j5 = match p_lit(v, j4, ",\"retry_interval\":") {
        Some(j) => j,
        None => {
            return None;
        },
    };
    let (retry_interval, j6) = match p_u32(v, j5) {
        Some(p) => p,
        None => {
            return None;
        },
    };
    let j7 = match p_lit(v, j6, ",\"max_retry_attempts\":") {
        Some(j) => j,
        None => {
            return None;
        },
    };
    let (max_retry_attempts, j8) = match p_u32(v, j7) {
        Some(p) => p,
        None => {
            return None;
        },
    };
    let j9 = match p_lit(v, j8, ",\"low_quality_resolution\":") {
        Some(j) => j,
        None => {
            return None;
        },
    };
    let (low_quality_resolution, j10) = match p_string(v, j9) {
        Some(p) => p,
        None => {
            return None;
        },
    };
    let j11 = match p_lit(v, j10, ",\"high_quality_resolution\":") {
        Some(j) => j,
        None => {
            return None;
        },
    };
    let (high_quality_resolution, j12) = match p_string(v, j11) {
        Some(p) => p,
        None => {
            return None;
        },
    };
    let j13 = match p_lit(v, j12, ",\"grid_size\":") {
        Some(j) => j,
        None => {
            return None;
        },
    };
    let (grid_size, j14) = match p_u32(v, j13) {
        Some(p) => p,
        None => {
            return None;
        },
    };
    let j15 = match p_lit(v, j14, "}") {
        Some(j) => j,
        None => {
            return None;
        },
    };
    let settings = Settings {
        rotation_interval,
        connection_timeout,
        retry_interval,
        max_retry_attempts,
        low_quality_resolution: crate::text::string_of(&low_quality_resolution),
        high_quality_resolution: crate::text::string_of(&high_quality_resolution),
        grid_size,
    };
    Some((settings, j15))
}

/// Consumes a possibly empty identity list body at index `i`.
fn p_users(v: &Vec<char>, i: usize) -> (r: Option<(Vec<User>, usize)>)
    requires
        i <= v@.len(),
    ensures
        match r {
            Some(p) => i <= p.1 <= v@.len() && parse_users(suf(v@, i as int)) == Some(
                (p.0@.map_values(|u: User| u@), suf(v@, p.1 as int)),
            ),
            None => parse_users(suf(v@, i as int)) is None,
        },
{
    if i < v.len() && v[i] == ']' {
        let empty: Vec<User> = Vec::new();
        proof {
            assert(suf(v@, i as int)[0] == v@[i as int]);
            assert(empty@.map_values(|u: User| u@) =~= Seq::<UserV>::empty());
        }
        return Some((empty, i));
    }
    proof {
        if suf(v@, i as int).len() > 0 {
            assert(suf(v@, i as int)[0] == v@[i as int]);
        }
        let opt = parse_users_items(suf(v@, i as int));
        if opt is Some {
            assert(Seq::<UserV>::empty() + opt.unwrap().0 =~= opt.unwrap().0);
        }
    }
    let mut acc: Vec<User> = Vec::new();
    let mut c: usize = i;
    loop
        invariant
            i <= c <= v@.len(),
            parse_users(suf(v@, i as int)) == parse_users_items(suf(v@, i as int)),
            parse_users_items(suf(v@, i as int)) == (match parse_users_items(suf(v@, c as int)) {
                Some(p) => Some((acc@.map_values(|u: User| u@) + p.0, p.1)),
                None => None::<(Seq<UserV>, Seq<char>)>,
            }),
        decreases v@.len() - c,
    {
        let (u, j) = match p_user(v, c) {
            Some(p) => p,
            None => {
                return None;
            },
        };
        let ghost accm = acc@.map_values(|u2: User| u2@);
        let ghost uv = u@;
        proof {
            lemma_parse_user_consumes(suf(v@, c as int));
        }
        acc.push(u);
        proof {
            assert(acc@.map_values(|u2: User| u2@) =~= accm + seq![uv]);
        }
        if j < v.len() && v[j] == ',' {
            proof {
                assert(suf(v@, j as int)[0] == v@[j as int]);
                assert(suf(v@, j as int).drop_first() =~= suf(v@, j as int + 1));
                let opt = parse_users_items(suf(v@, j as int + 1));
                if opt is Some {
                    vstd::seq_lib::lemma_concat_associative(accm, seq![uv], opt.unwrap().0);
                }
            }
            c = j + 1;
        } else {
            proof {
                if suf(v@, j as int).len() > 0 {
                    assert(suf(v@, j as int)[0] == v@[j as int]);
                }
            }
            return Some((acc, j));
        }
    }
}

/// Consumes a possibly empty apartment list body at index `i`.
fn p_apartments(v: &Vec<char>, i: usize) -> (r: Option<(Vec<Apartment>, usize)>)
    requires
        i <= v@.len(),
    ensures
        match r {
            Some(p) => i <= p.1 <= v@.len() && parse_apartments(suf(v@, i as int)) == Some(
                (p.0@.map_values(|a: Apartment| a@), suf(v@, p.1 as int)),
            ),
            None => parse_apartments(suf(v@, i as int)) is None,
        },
{
    if i < v.len() && v[i] == ']' {
        let empty: Vec<Apartment> = Vec::new();
        proof {
            assert(suf(v@, i as int)[0] == v@[i as int]);
            assert(empty@.map_values(|a: Apartment| a@) =~= Seq::<ApartmentV>::empty());
        }
        return Some((empty, i));
    }
    proof {
        if suf(v@, i as int).len() > 0 {
            assert(suf(v@, i as int)[0] == v@[i as int]);
        }
        let opt = parse_apartments_items(suf(v@, i as int));
        if opt is Some {
            assert(Seq::<ApartmentV>::empty() + opt.unwrap().0 =~= opt.unwrap().0);
        }
    }
    let mut acc: Vec<Apartment> = Vec::new();
    let mut c: usize = i;
    loop
        invariant
            i <= c <= v@.len(),
            parse_apartments(suf(v@, i as int)) == parse_apartments_items(suf(v@, i as int)),
            parse_apartments_items(suf(v@, i as int)) == (match parse_apartments_items(
                suf(v@, c as int),
            ) {
                Some(p) => Some((acc@.map_values(|a: Apartment| a@) + p.0, p.1)),
                None => None::<(Seq<ApartmentV>, Seq<char>)>,
            }),
        decreases v@.len() - c,
    {
        let (a, j) = match p_apartment(v, c) {
            Some(p) => p,
            None => {
                return None;
            },
        };
        let ghost accm = acc@.map_values(|a2: Apartment| a2@);
        let ghost av = a@;
        proof {
            lemma_parse_apartment_consumes(suf(v@, c as int));
        }
        acc.push(a);
        proof {
            assert(acc@.map_values(|a2: Apartment| a2@) =~= accm + seq![av]);
        }
        if j < v.len() && v[j] == ',' {
            proof {
                assert(suf(v@, j as int)[0] == v@[j as int]);
                assert(suf(v@, j as int).drop_first() =~= suf(v@, j as int + 1));
                let opt = parse_apartments_items(suf(v@, j as int + 1));
                if opt is Some {
                    vstd::seq_lib::lemma_concat_associative(accm, seq![av], opt.unwrap().0);
                }
            }
            c = j + 1;
        } else {
            proof {
                if suf(v@, j as int).len() > 0 {
                    assert(suf(v@, j as int)[0] == v@[j as int]);
                }
            }
            return Some((acc, j));
        }
    }
}

/// Consumes a possibly empty camera list body at index `i`.
fn p_cameras(v: &Vec<char>, i: usize) -> (r: Option<(Vec<Camera>, usize)>)
    requires
        i <= v@.len(),
    ensures
        match r {
            Some(p) => i <= p.1 <= v@.len() && parse_cameras(suf(v@, i as int)) == Some(
                (p.0@.map_values(|c: Camera| c@), suf(v@, p.1 as int)),
            ),
            None => parse_cameras(suf(v@, i as int)) is None,
        },
{
    if i < v.len() && v[i] == ']' {
        let empty: Vec<Camera> = Vec::new();
        proof {
            assert(suf(v@, i as int)[0] == v@[i as int]);
            assert(empty@.map_values(|c2: Camera| c2@) =~= Seq::<CameraV>::empty());
        }
        return Some((empty, i));
    }
    proof {
        if suf(v@, i as int).len() > 0 {
            assert(suf(v@, i as int)[0] == v@[i as int]);
        }
        let opt = parse_cameras_items(suf(v@, i as int));
        if opt is Some {
            assert(Seq::<CameraV>::empty() + opt.unwrap().0 =~= opt.unwrap().0);
        }
    }
    let mut acc: Vec<Camera> = Vec::new();
    let mut c: usize = i;
    loop
        invariant
            i <= c <= v@.len(),
            parse_cameras(suf(v@, i as int)) == parse_cameras_items(suf(v@, i as int)),
            parse_cameras_items(suf(v@, i as int)) == (match parse_cameras_items(
                suf(v@, c as int),
            ) {
                Some(p) => Some((acc@.map_values(|c2: Camera| c2@) + p.0, p.1)),
                None => None::<(Seq<CameraV>, Seq<char>)>,
            }),
        decreases v@.len() - c,
    {
        let (cam, j) = match p_camera(v, c) {
            Some(p) => p,
            None => {
                return None;
            },
        };
        let ghost accm = acc@.map_values(|c2: Camera| c2@);
        let ghost cv = cam@;
        proof {
            lemma_parse_camera_consumes(suf(v@, c as int));
        }
        acc.push(cam);
        proof {
            assert(acc@.map_values(|c2: Camera| c2@) =~= accm + seq![cv]);
        }
        if j < v.len() && v[j] == ',' {
            proof {
                assert(suf(v@, j as int)[0] == v@[j as int]);
                assert(suf(v@, j as int).drop_first() =~= suf(v@, j as int + 1));
                let opt = parse_cameras_items(suf(v@, j as int + 1));
                if opt is Some {
                    vstd::seq_lib::lemma_concat_associative(accm, seq![cv], opt.unwrap().0);
                }
            }
            c = j + 1;
        } else {
            proof {
                if suf(v@, j as int).len() > 0 {
                    assert(suf(v@, j as int)[0] == v@[j as int]);
                }
            }
            return Some((acc, j));
        }
    }
}

impl Config {
    /// Reads a registry back from its structured text document.  Exactly the
    /// documents [`parse_config`] accepts are accepted — in particular every
    /// output of [`Config::to_json`] — and nothing is populated on failure.
    pub fn from_json(json: &str) -> (r: Result<Config, SurveillanceError>)
        ensures
            match r {
                Ok(c) => parse_config(json@) == Some(c@),
                Err(e) => parse_config(json@) is None && (e matches
                    SurveillanceError::JsonError { message } && message@
                    == "the document is not a well-formed registry"@),
            },
    {
        let v = crate::text::chars_of(json);
        proof {
            assert(suf(v@, 0) =~= v@);
        }
        let j1 = match p_lit(&v, 0, "{\"users\":[") {
            Some(j) => j,
            None => {
                return Err(
                    SurveillanceError::json_error("the document is not a well-formed registry"),
                );
            },
        };
        let (users, j2) = match p_users(&v, j1) {
            Some(p) => p,
            None => {
                return Err(
                    SurveillanceError::json_error("the document is not a well-formed registry"),
                );
            },
        };
        let j3 = match p_lit(&v, j2, "],\"apartments\":[") {
            Some(j) => j,
            None => {
                return Err(
                    SurveillanceError::json_error("the document is not a well-formed registry"),
                );
            },
        };
        let (apartments, j4) = match p_apartments(&v, j3) {
            Some(p) => p,
            None => {
                return Err(
                    SurveillanceError::json_error("the document is not a well-formed registry"),
                );
            },
        };
        let j5 = match p_lit(&v, j4, "],\"cameras\":[") {
            Some(j) => j,
            None => {
                return Err(
                    SurveillanceError::json_error("the document is not a well-formed registry"),
                );
            },
        };
        let (cameras, j6) = match p_cameras(&v, j5) {
            Some(p) => p,
            None => {
                return Err(
                    SurveillanceError::json_error("the document is not a well-formed registry"),
                );
            },
        };
        let j7 = match p_lit(&v, j6, "],\"settings\":") {
            Some(j) => j,
            None => {
                return Err(
                    SurveillanceError::json_error("the document is not a well-formed registry"),
                );
            },
        };
        let (settings, j8) = match p_settings(&v, j7) {
            Some(p) => p,
            None => {
                return Err(
                    SurveillanceError::json_error("the document is not a well-formed registry"),
                );
            },
        };
        let j9 = match p_lit(&v, j8, "}") {
            Some(j) => j,
            None => {
                return Err(
                    SurveillanceError::json_error("the document is not a well-formed registry"),
                );
            },
        };
        if j9 != v.len() {
            proof {
                assert(suf(v@, j9 as int).len() > 0);
            }
            return Err(SurveillanceError::json_error("the document is not a well-formed registry"));
        }
        let config = Config { users, apartments, cameras, settings };
        proof {
            assert(suf(v@, j9 as int).len() == 0);
        }
        Ok(config)
    }
}

} // verus!
