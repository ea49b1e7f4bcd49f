//! The section schemas: one decoding contract per section kind. Each decode
//! is a pure function from a value node to that kind's payload or an error;
//! no schema touches decoder state.

use crate::color::{color_of_name, spec_color_of, BannerColor};
use crate::document::{lookup_field, table_lookup, Scalar, Value};
use crate::error::{DecodeError, ErrorV};
use crate::keys::SectionKind;
use vstd::prelude::*;

verus! {

/// The banner section payload: a color and a command string.
#[derive(Debug, PartialEq)]
pub struct BannerCfg {
    pub color: BannerColor,
    pub command: String,
}

/// The mathematical model of a [`BannerCfg`].
pub ghost struct BannerV {
    pub color: BannerColor,
    pub command: Seq<char>,
}

impl View for BannerCfg {
    type V = BannerV;

    open spec fn view(&self) -> BannerV {
        BannerV { color: self.color, command: self.command@ }
    }
}

/// The docker section payload: mount point to label pairs, in table order.
pub type DockerConfig = Vec<(String, String)>;

/// The last-login section payload: user name to non-negative count pairs,
/// in table order.
pub type LastLoginCfg = Vec<(String, u64)>;

/// The last-run section payload: presence alone matters, so it has no fields.
/// Any fields found in its table are ignored for forward compatibility.
#[derive(Debug, PartialEq)]
pub struct LastRunConfig {}

/// The model of a docker payload: the pairs' views, in order.
pub open spec fn pairs_view(s: Seq<(String, String)>) -> Seq<(Seq<char>, Seq<char>)> {
    s.map_values(|p: (String, String)| (p.0@, p.1@))
}

/// The model of a last-login payload: the pairs' views, in order.
pub open spec fn login_view(s: Seq<(String, u64)>) -> Seq<(Seq<char>, u64)> {
    s.map_values(|p: (String, u64)| (p.0@, p.1))
}

/// What the banner schema decodes `v` to: a table with a recognized `color`
/// and a `command` string, both required, other fields ignored.
pub open spec fn spec_decode_banner(v: Value) -> Result<BannerV, ErrorV> {
    match v {
        Value::Table(t) => match table_lookup(t@, "color"@) {
            None => Err(
                ErrorV::MissingField { section: SectionKind::Banner, field: "color"@ },
            ),
            Some(Scalar::Int(_)) => Err(
                ErrorV::TypeMismatch { section: SectionKind::Banner, field: "color"@ },
            ),
            Some(Scalar::Text(c)) => match spec_color_of(c@) {
                None => Err(ErrorV::UnknownColor { name: c@ }),
                Some(color) => match table_lookup(t@, "command"@) {
                    None => Err(
                        ErrorV::MissingField { section: SectionKind::Banner, field: "command"@ },
                    ),
                    Some(Scalar::Int(_)) => Err(
                        ErrorV::TypeMismatch { section: SectionKind::Banner, field: "command"@ },
                    ),
                    Some(Scalar::Text(cmd)) => Ok(BannerV { color, command: cmd@ }),
                },
            },
        },
        _ => Err(
            ErrorV::TypeMismatch { section: SectionKind::Banner, field: Seq::<char>::empty() },
        ),
    }
}

/// Decodes a banner section value.
pub fn decode_banner(v: &Value) -> (r: Result<BannerCfg, DecodeError>)
    ensures
        (r is Ok) == (spec_decode_banner(*v) is Ok),
        r matches Ok(b) ==> b@ == spec_decode_banner(*v)->Ok_0,
        r matches Err(e) ==> e@ == spec_decode_banner(*v)->Err_0,
{
    match v {
        Value::Table(t) => {
            let color_name = match lookup_field(t, "color") {
                None => {
                    return Err(
                        DecodeError::MissingField {
                            section: SectionKind::Banner,
                            field: String::from_str("color"),
                        },
                    );
                },
                Some(Scalar::Int(_)) => {
                    return Err(
                        DecodeError::TypeMismatch {
                            section: SectionKind::Banner,
                            field: String::from_str("color"),
                        },
                    );
                },
                Some(Scalar::Text(c)) => c,
            };
            let color = match color_of_name(color_name.as_str()) {
                None => {
                    return Err(DecodeError::UnknownColor { name: color_name });
                },
                Some(color) => color,
            };
            match lookup_field(t, "command") {
                None => Err(
                    DecodeError::MissingField {
                        section: SectionKind::Banner,
                        field: String::from_str("command"),
                    },
                ),
                Some(Scalar::Int(_)) => Err(
                    DecodeError::TypeMismatch {
                        section: SectionKind::Banner,
                        field: String::from_str("command"),
                    },
                ),
                Some(Scalar::Text(cmd)) => Ok(BannerCfg { color, command: cmd }),
            }
        },
        _ => Err(
            DecodeError::TypeMismatch { section: SectionKind::Banner, field: String::new() },
        ),
    }
}

/// What the docker schema decodes a table to: every value must be a string;
/// the first entry whose value is not fails the section.
pub open spec fn spec_docker_entries(t: Seq<(String, Scalar)>) -> Result<
    Seq<(Seq<char>, Seq<char>)>,
    ErrorV,
>
    decreases t.len(),
{
    if t.len() == 0 {
        Ok(Seq::empty())
    } else {
        match spec_docker_entries(t.drop_last()) {
            Err(e) => Err(e),
            Ok(s) => match t.last().1 {
                Scalar::Text(val) => Ok(s.push((t.last().0@, val@))),
                Scalar::Int(_) => Err(
                    ErrorV::TypeMismatch { section: SectionKind::Docker, field: t.last().0@ },
                ),
            },
        }
    }
}

/// What the docker schema decodes `v` to: an arbitrary string-to-string
/// table; zero entries is a valid, empty mapping.
pub open spec fn spec_decode_docker(v: Value) -> Result<Seq<(Seq<char>, Seq<char>)>, ErrorV> {
    match v {
        Value::Table(t) => spec_docker_entries(t@),
        _ => Err(
            ErrorV::TypeMismatch { section: SectionKind::Docker, field: Seq::<char>::empty() },
        ),
    }
}

proof fn lemma_docker_err_extends(t: Seq<(String, Scalar)>, i: int)
    requires
        0 <= i <= t.len(),
        spec_docker_entries(t.take(i)) is Err,
    ensures
        spec_docker_entries(t) == spec_docker_entries(t.take(i)),
    decreases t.len() - i,
{
    if i == t.len() {
        assert(t.take(i) =~= t);
    } else {
        assert(t.take(i + 1).drop_last() =~= t.take(i));
        lemma_docker_err_extends(t, i + 1);
    }
}

/// Decodes a docker section value.
pub fn decode_docker(v: &Value) -> (r: Result<DockerConfig, DecodeError>)
    ensures
        (r is Ok) == (spec_decode_docker(*v) is Ok),
        r matches Ok(d) ==> pairs_view(d@) == spec_decode_docker(*v)->Ok_0,
        r matches Err(e) ==> e@ == spec_decode_docker(*v)->Err_0,
{
    match v {
        Value::Table(t) => {
            let mut out: Vec<(String, String)> = Vec::new();
            let mut i: usize = 0;
            proof {
                assert(t@.take(0) =~= Seq::<(String, Scalar)>::empty());
                assert(pairs_view(out@) =~= Seq::<(Seq<char>, Seq<char>)>::empty());
            }
            while i < t.len()
                invariant
                    i <= t@.len(),
                    spec_decode_docker(*v) == spec_docker_entries(t@),
                    spec_docker_entries(t@.take(i as int)) == Ok::<_, ErrorV>(pairs_view(out@)),
                decreases t@.len() - i,
            {
                proof {
                    assert(t@.take(i + 1).drop_last() =~= t@.take(i as int));
                    assert(t@.take(i + 1).last() == t@[i as int]);
                }
                match &t[i].1 {
                    Scalar::Text(val) => {
                        let key = t[i].0.clone();
                        let val = val.clone();
                        let ghost prev = out@;
                        out.push((key, val));
                        proof {
                            assert(pairs_view(out@) =~= pairs_view(prev).push(
                                (out@.last().0@, out@.last().1@),
                            ));
                        }
                    },
                    Scalar::Int(_) => {
                        let key = t[i].0.clone();
                        proof {
                            assert(spec_docker_entries(t@.take(i + 1)) == Err::<
                                Seq<(Seq<char>, Seq<char>)>,
                                ErrorV,
                            >(
                                ErrorV::TypeMismatch {
                                    section: SectionKind::Docker,
                                    field: t@[i as int].0@,
                                },
                            ));
                            lemma_docker_err_extends(t@, i + 1);
                        }
                        return Err(
                            DecodeError::TypeMismatch { section: SectionKind::Docker, field: key },
                        );
                    },
                }
                i += 1;
            }
            proof {
                assert(t@.take(t@.len() as int) =~= t@);
            }
            Ok(out)
        },
        _ => Err(
            DecodeError::TypeMismatch { section: SectionKind::Docker, field: String::new() },
        ),
    }
}

/// What the last-login schema decodes a table to: every value must be a
/// non-negative integer; the first entry whose value is not fails the section.
pub open spec fn spec_login_entries(t: Seq<(String, Scalar)>) -> Result<
    Seq<(Seq<char>, u64)>,
    ErrorV,
>
    decreases t.len(),
{
    if t.len() == 0 {
        Ok(Seq::empty())
    } else {
        match spec_login_entries(t.drop_last()) {
            Err(e) => Err(e),
            Ok(s) => match t.last().1 {
                Scalar::Int(n) => if n >= 0 {
                    Ok(s.push((t.last().0@, n as u64)))
                } else {
                    Err(
                        ErrorV::TypeMismatch { section: SectionKind::LastLogin, field: t.last().0@ },
                    )
                },
                Scalar::Text(_) => Err(
                    ErrorV::TypeMismatch { section: SectionKind::LastLogin, field: t.last().0@ },
                ),
            },
        }
    }
}

/// What the last-login schema decodes `v` to: an arbitrary table from user
/// name to non-negative integer.
pub open spec fn spec_decode_last_login(v: Value) -> Result<Seq<(Seq<char>, u64)>, ErrorV> {
    match v {
        Value::Table(t) => spec_login_entries(t@),
        _ => Err(
            ErrorV::TypeMismatch { section: SectionKind::LastLogin, field: Seq::<char>::empty() },
        ),
    }
}

proof fn lemma_login_err_extends(t: Seq<(String, Scalar)>, i: int)
    requires
        0 <= i <= t.len(),
        spec_login_entries(t.take(i)) is Err,
    ensures
        spec_login_entries(t) == spec_login_entries(t.take(i)),
    decreases t.len() - i,
{
    if i == t.len() {
        assert(t.take(i) =~= t);
    } else {
        assert(t.take(i + 1).drop_last() =~= t.take(i));
        lemma_login_err_extends(t, i + 1);
    }
}

/// Decodes a last-login section value.
pub fn decode_last_login(v: &Value) -> (r: Result<LastLoginCfg, DecodeError>)
    ensures
        (r is Ok) == (spec_decode_last_login(*v) is Ok),
        r matches Ok(d) ==> login_view(d@) == spec_decode_last_login(*v)->Ok_0,
        r matches Err(e) ==> e@ == spec_decode_last_login(*v)->Err_0,
{
    match v {
        Value::Table(t) => {
            let mut out: Vec<(String, u64)> = Vec::new();
            let mut i: usize = 0;
            proof {
                assert(t@.take(0) =~= Seq::<(String, Scalar)>::empty());
                assert(login_view(out@) =~= Seq::<(Seq<char>, u64)>::empty());
            }
            while i < t.len()
                invariant
                    i <= t@.len(),
                    spec_decode_last_login(*v) == spec_login_entries(t@),
                    spec_login_entries(t@.take(i as int)) == Ok::<_, ErrorV>(login_view(out@)),
                decreases t@.len() - i,
            {
                proof {
                    assert(t@.take(i + 1).drop_last() =~= t@.take(i as int));
                    assert(t@.take(i + 1).last() == t@[i as int]);
                }
                match &t[i].1 {
                    Scalar::Int(n) => {
                        let n = *n;
                        if n >= 0 {
                            let key = t[i].0.clone();
                            let ghost prev = out@;
                            out.push((key, n as u64));
                            proof {
                                assert(login_view(out@) =~= login_view(prev).push(
                                    (out@.last().0@, out@.last().1),
                                ));
                            }
                        } else {
                            let key = t[i].0.clone();
                            proof {
                                assert(spec_login_entries(t@.take(i + 1)) == Err::<
                                    Seq<(Seq<char>, u64)>,
                                    ErrorV,
                                >(
                                    ErrorV::TypeMismatch {
                                        section: SectionKind::LastLogin,
                                        field: t@[i as int].0@,
                                    },
                                ));
                                lemma_login_err_extends(t@, i + 1);
                            }
                            return Err(
                                DecodeError::TypeMismatch {
                                    section: SectionKind::LastLogin,
                                    field: key,
                                },
                            );
                        }
                    },
                    Scalar::Text(_) => {
                        let key = t[i].0.clone();
                        proof {
                            assert(spec_login_entries(t@.take(i + 1)) == Err::<
                                Seq<(Seq<char>, u64)>,
                                ErrorV,
                            >(
                                ErrorV::TypeMismatch {
                                    section: SectionKind::LastLogin,
                                    field: t@[i as int].0@,
                                },
                            ));
                            lemma_login_err_extends(t@, i + 1);
                        }
                        return Err(
                            DecodeError::TypeMismatch {
                                section: SectionKind::LastLogin,
                                field: key,
                            },
                        );
                    },
                }
                i += 1;
            }
            proof {
                assert(t@.take(t@.len() as int) =~= t@);
            }
            Ok(out)
        },
        _ => Err(
            DecodeError::TypeMismatch { section: SectionKind::LastLogin, field: String::new() },
        ),
    }
}

/// Whether the last-run schema accepts `v`: any table does; its fields, if
/// present, are ignored for forward compatibility.
pub open spec fn spec_decode_last_run(v: Value) -> Result<(), ErrorV> {
    match v {
        Value::Table(_) => Ok(()),
        _ => Err(
            ErrorV::TypeMismatch { section: SectionKind::LastRun, field: Seq::<char>::empty() },
        ),
    }
}

/// Decodes a last-run section value.
pub fn decode_last_run(v: &Value) -> (r: Result<LastRunConfig, DecodeError>)
    ensures
        (r is Ok) == (spec_decode_last_run(*v) is Ok),
        r matches Err(e) ==> e@ == spec_decode_last_run(*v)->Err_0,
{
    match v {
        Value::Table(_) => Ok(LastRunConfig {}),
        _ => Err(
            DecodeError::TypeMismatch { section: SectionKind::LastRun, field: String::new() },
        ),
    }
}

} // verus!
