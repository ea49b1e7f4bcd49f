//! The ordered decoder: walks the document's keys in source order, dispatches
//! each recognized key to its section schema, and records the zero-based
//! position at which each section occurred.
//!
//! Policies fixed here, deliberately:
//! - an unrecognized top-level key fails the whole decode with
//!   `UnknownSection` (hard failure, not a silent skip);
//! - a repeated key for the same section overwrites the earlier occurrence,
//!   and the recorded position is that of the last occurrence;
//! - any schema failure aborts the whole decode at once, so no partial
//!   configuration is ever produced.

use crate::document::{Document, Value};
use crate::error::{DecodeError, ErrorV};
use crate::keys::{kind_of_key, spec_kind_of, SectionKind};
use crate::schema::{
    decode_banner, decode_docker, decode_last_login, decode_last_run, login_view, pairs_view,
    spec_decode_banner, spec_decode_docker, spec_decode_last_login, spec_decode_last_run,
    BannerCfg, BannerV, DockerConfig, LastLoginCfg, LastRunConfig,
};
use vstd::prelude::*;

verus! {

/// A decoded section payload together with the zero-based position of its key
/// among all keys of the document, in source order.
#[derive(Debug, PartialEq)]
pub struct Positioned<T> {
    pub position: usize,
    pub value: T,
}

/// The decode result: one optional positioned payload per section kind.
/// Constructed complete by [`decode_document`] and immutable thereafter.
#[derive(Debug, PartialEq)]
pub struct OrderedConfig {
    pub banner: Option<Positioned<BannerCfg>>,
    pub docker: Option<Positioned<DockerConfig>>,
    pub last_login: Option<Positioned<LastLoginCfg>>,
    pub last_run: Option<Positioned<LastRunConfig>>,
}

/// The mathematical model of a positioned payload.
pub ghost struct PositionedV<T> {
    pub position: int,
    pub value: T,
}

/// The mathematical model of an [`OrderedConfig`].
pub ghost struct ConfigV {
    pub banner: Option<PositionedV<BannerV>>,
    pub docker: Option<PositionedV<Seq<(Seq<char>, Seq<char>)>>>,
    pub last_login: Option<PositionedV<Seq<(Seq<char>, u64)>>>,
    pub last_run: Option<PositionedV<()>>,
}

impl View for OrderedConfig {
    type V = ConfigV;

    open spec fn view(&self) -> ConfigV {
        ConfigV {
            banner: match self.banner {
                Some(p) => Some(PositionedV { position: p.position as int, value: p.value@ }),
                None => None,
            },
            docker: match self.docker {
                Some(p) => Some(
                    PositionedV { position: p.position as int, value: pairs_view(p.value@) },
                ),
                None => None,
            },
            last_login: match self.last_login {
                Some(p) => Some(
                    PositionedV { position: p.position as int, value: login_view(p.value@) },
                ),
                None => None,
            },
            last_run: match self.last_run {
                Some(p) => Some(PositionedV { position: p.position as int, value: () }),
                None => None,
            },
        }
    }
}

/// The configuration with every slot absent, where a decode starts.
pub open spec fn empty_config() -> ConfigV {
    ConfigV { banner: None, docker: None, last_login: None, last_run: None }
}

/// A decoded section payload, with its kind carried by the variant.
pub ghost enum SectionV {
    Banner(BannerV),
    Docker(Seq<(Seq<char>, Seq<char>)>),
    LastLogin(Seq<(Seq<char>, u64)>),
    LastRun,
}

/// The kind a decoded payload belongs to.
pub open spec fn kind_of_section(sv: SectionV) -> SectionKind {
    match sv {
        SectionV::Banner(_) => SectionKind::Banner,
        SectionV::Docker(_) => SectionKind::Docker,
        SectionV::LastLogin(_) => SectionKind::LastLogin,
        SectionV::LastRun => SectionKind::LastRun,
    }
}

/// Dispatch from a section kind to its schema's decode.
pub open spec fn spec_decode_section(k: SectionKind, v: Value) -> Result<SectionV, ErrorV> {
    match k {
        SectionKind::Banner => match spec_decode_banner(v) {
            Ok(b) => Ok(SectionV::Banner(b)),
            Err(e) => Err(e),
        },
        SectionKind::Docker => match spec_decode_docker(v) {
            Ok(d) => Ok(SectionV::Docker(d)),
            Err(e) => Err(e),
        },
        SectionKind::LastLogin => match spec_decode_last_login(v) {
            Ok(l) => Ok(SectionV::LastLogin(l)),
            Err(e) => Err(e),
        },
        SectionKind::LastRun => match spec_decode_last_run(v) {
            Ok(_) => Ok(SectionV::LastRun),
            Err(e) => Err(e),
        },
    }
}

/// Stores a decoded payload at `pos` into its kind's slot, overwriting any
/// earlier occurrence of the same kind.
pub open spec fn store_section(acc: ConfigV, pos: int, sv: SectionV) -> ConfigV {
    match sv {
        SectionV::Banner(b) => ConfigV {
            banner: Some(PositionedV { position: pos, value: b }),
            ..acc
        },
        SectionV::Docker(d) => ConfigV {
            docker: Some(PositionedV { position: pos, value: d }),
            ..acc
        },
        SectionV::LastLogin(l) => ConfigV {
            last_login: Some(PositionedV { position: pos, value: l }),
            ..acc
        },
        SectionV::LastRun => ConfigV {
            last_run: Some(PositionedV { position: pos, value: () }),
            ..acc
        },
    }
}

/// The decoder's running state consumed linearly: what decoding the keys from
/// `i` on yields, starting from the partial configuration `acc`. Each key is
/// looked up in the registry and its value decoded by the matched schema;
/// the first failure aborts the whole decode.
pub open spec fn spec_decode_from(d: Seq<(String, Value)>, i: int, acc: ConfigV) -> Result<
    ConfigV,
    ErrorV,
>
    decreases d.len() - i,
{
    if i < 0 || i >= d.len() {
        Ok(acc)
    } else {
        match spec_kind_of(d[i].0@) {
            None => Err(ErrorV::UnknownSection { key: d[i].0@ }),
            Some(k) => match spec_decode_section(k, d[i].1) {
                Err(e) => Err(e),
                Ok(sv) => spec_decode_from(d, i + 1, store_section(acc, i, sv)),
            },
        }
    }
}

/// What decoding a whole document yields: a document with zero keys fails
/// with `EmptyDocument`; otherwise the keys are folded in source order.
pub open spec fn spec_decode(d: Seq<(String, Value)>) -> Result<ConfigV, ErrorV> {
    if d.len() == 0 {
        Err(ErrorV::EmptyDocument)
    } else {
        spec_decode_from(d, 0, empty_config())
    }
}

/// Decodes a document into an ordered configuration.
///
/// The result is exactly [`spec_decode`] of the document: it succeeds if and
/// only if the document has at least one key, every key names a recognized
/// section, and every section's value decodes under its schema; on success
/// each present slot holds the payload and position of the last occurrence of
/// its key, and on failure the error is the first one in document order.
pub fn decode_document(doc: &Document) -> (r: Result<OrderedConfig, DecodeError>)
    ensures
        (r is Ok) == (spec_decode(doc@) is Ok),
        r matches Ok(cfg) ==> cfg@ == spec_decode(doc@)->Ok_0,
        r matches Err(e) ==> e@ == spec_decode(doc@)->Err_0,
        doc@.len() == 0 ==> (r matches Err(e) && e@ == ErrorV::EmptyDocument),
{
    if doc.len() == 0 {
        return Err(DecodeError::EmptyDocument);
    }
    let mut cfg = OrderedConfig { banner: None, docker: None, last_login: None, last_run: None };
    let mut i: usize = 0;
    while i < doc.len()
        invariant
            0 < doc@.len(),
            i <= doc@.len(),
            spec_decode(doc@) == spec_decode_from(doc@, i as int, cfg@),
        decreases doc@.len() - i,
    {
        let ghost prev = cfg@;
        let kind = match kind_of_key(doc[i].0.as_str()) {
            None => {
                let key = doc[i].0.clone();
                return Err(DecodeError::UnknownSection { key });
            },
            Some(kind) => kind,
        };
        match kind {
            SectionKind::Banner => match decode_banner(&doc[i].1) {
                Err(e) => {
                    return Err(e);
                },
                Ok(b) => {
                    cfg.banner = Some(Positioned { position: i, value: b });
                    proof {
                        let sv = spec_decode_section(kind, doc@[i as int].1)->Ok_0;
                        assert(cfg@ == store_section(prev, i as int, sv));
                    }
                },
            },
            SectionKind::Docker => match decode_docker(&doc[i].1) {
                Err(e) => {
                    return Err(e);
                },
                Ok(d) => {
                    cfg.docker = Some(Positioned { position: i, value: d });
                    proof {
                        let sv = spec_decode_section(kind, doc@[i as int].1)->Ok_0;
                        assert(cfg@ == store_section(prev, i as int, sv));
                    }
                },
            },
            SectionKind::LastLogin => match decode_last_login(&doc[i].1) {
                Err(e) => {
                    return Err(e);
                },
                Ok(l) => {
                    cfg.last_login = Some(Positioned { position: i, value: l });
                    proof {
                        let sv = spec_decode_section(kind, doc@[i as int].1)->Ok_0;
                        assert(cfg@ == store_section(prev, i as int, sv));
                    }
                },
            },
            SectionKind::LastRun => match decode_last_run(&doc[i].1) {
                Err(e) => {
                    return Err(e);
                },
                Ok(m) => {
                    cfg.last_run = Some(Positioned { position: i, value: m });
                    proof {
                        let sv = spec_decode_section(kind, doc@[i as int].1)->Ok_0;
                        assert(cfg@ == store_section(prev, i as int, sv));
                    }
                },
            },
        }
        i += 1;
    }
    Ok(cfg)
}

/// Decoding is deterministic, and so idempotent: decoding the same document
/// twice yields structurally equal configurations — same kinds present, same
/// positions, same decoded payloads.
pub proof fn lemma_decode_deterministic(d1: Seq<(String, Value)>, d2: Seq<(String, Value)>)
    requires
        d1 == d2,
    ensures
        spec_decode(d1) == spec_decode(d2),
{
}

/// The slot a configuration holds for a kind, with the payload carried
/// uniformly as a [`SectionV`].
pub open spec fn slot_of(cfg: ConfigV, k: SectionKind) -> Option<PositionedV<SectionV>> {
    match k {
        SectionKind::Banner => match cfg.banner {
            Some(p) => Some(PositionedV { position: p.position, value: SectionV::Banner(p.value) }),
            None => None,
        },
        SectionKind::Docker => match cfg.docker {
            Some(p) => Some(PositionedV { position: p.position, value: SectionV::Docker(p.value) }),
            None => None,
        },
        SectionKind::LastLogin => match cfg.last_login {
            Some(p) => Some(
                PositionedV { position: p.position, value: SectionV::LastLogin(p.value) },
            ),
            None => None,
        },
        SectionKind::LastRun => match cfg.last_run {
            Some(p) => Some(PositionedV { position: p.position, value: SectionV::LastRun }),
            None => None,
        },
    }
}

/// The index of the last key at or after `i` whose kind is `k`, or `-1` when
/// no such key exists.
pub open spec fn last_kind_index(d: Seq<(String, Value)>, i: int, k: SectionKind) -> int
    decreases d.len() - i,
{
    if i < 0 || i >= d.len() {
        -1
    } else {
        let rest = last_kind_index(d, i + 1, k);
        if rest >= 0 {
            rest
        } else if spec_kind_of(d[i].0@) == Some(k) {
            i
        } else {
            -1
        }
    }
}

proof fn lemma_last_kind_index_props(d: Seq<(String, Value)>, i: int, k: SectionKind)
    requires
        0 <= i,
    ensures
        last_kind_index(d, i, k) >= 0 ==> i <= last_kind_index(d, i, k) < d.len()
            && spec_kind_of(d[last_kind_index(d, i, k)].0@) == Some(k),
        forall|j: int|
            i <= j < d.len() && j > last_kind_index(d, i, k) ==> spec_kind_of(d[j].0@) != Some(k),
    decreases d.len() - i,
{
    if i < d.len() {
        lemma_last_kind_index_props(d, i + 1, k);
    }
}

proof fn lemma_store_slot(acc: ConfigV, pos: int, sv: SectionV, k: SectionKind)
    ensures
        kind_of_section(sv) == k ==> slot_of(store_section(acc, pos, sv), k) == Some(
            PositionedV { position: pos, value: sv },
        ),
        kind_of_section(sv) != k ==> slot_of(store_section(acc, pos, sv), k) == slot_of(acc, k),
{
}

proof fn lemma_section_kind(k: SectionKind, v: Value)
    ensures
        spec_decode_section(k, v) matches Ok(sv) ==> kind_of_section(sv) == k,
{
}

proof fn lemma_fold_slots(d: Seq<(String, Value)>, i: int, acc: ConfigV, cfg: ConfigV)
    requires
        0 <= i <= d.len(),
        spec_decode_from(d, i, acc) == Ok::<ConfigV, ErrorV>(cfg),
    ensures
        forall|k: SectionKind|
            last_kind_index(d, i, k) >= 0 ==> #[trigger] slot_of(cfg, k) == Some(
                PositionedV {
                    position: last_kind_index(d, i, k),
                    value: spec_decode_section(k, d[last_kind_index(d, i, k)].1)->Ok_0,
                },
            ),
        forall|k: SectionKind|
            last_kind_index(d, i, k) < 0 ==> #[trigger] slot_of(cfg, k) == slot_of(acc, k),
    decreases d.len() - i,
{
    if i == d.len() {
    } else {
        let k0 = spec_kind_of(d[i].0@)->Some_0;
        let sv0 = spec_decode_section(k0, d[i].1)->Ok_0;
        let acc1 = store_section(acc, i, sv0);
        lemma_section_kind(k0, d[i].1);
        lemma_fold_slots(d, i + 1, acc1, cfg);
        assert forall|k: SectionKind| last_kind_index(d, i, k) >= 0 implies #[trigger] slot_of(
            cfg,
            k,
        ) == Some(
            PositionedV {
                position: last_kind_index(d, i, k),
                value: spec_decode_section(k, d[last_kind_index(d, i, k)].1)->Ok_0,
            },
        ) by {
            if last_kind_index(d, i + 1, k) < 0 {
                lemma_store_slot(acc, i, sv0, k);
            }
        }
        assert forall|k: SectionKind| last_kind_index(d, i, k) < 0 implies #[trigger] slot_of(
            cfg,
            k,
        ) == slot_of(acc, k) by {
            lemma_store_slot(acc, i, sv0, k);
        }
    }
}

/// Sorting a successful decode's present slots by position recovers exactly
/// the order in which their keys appeared in the document: a slot is present
/// precisely when some key names its kind; each present slot's position is
/// the index of the last key naming that kind, and its payload is that key's
/// decoded value; and distinct kinds hold distinct positions, each naming its
/// own kind in the document, so ascending positions list the present sections
/// in source order.
pub proof fn lemma_order_recovery(d: Seq<(String, Value)>, cfg: ConfigV)
    requires
        spec_decode(d) == Ok::<ConfigV, ErrorV>(cfg),
    ensures
        forall|k: SectionKind|
            (#[trigger] slot_of(cfg, k)) is Some <==> last_kind_index(d, 0, k) >= 0,
        forall|k: SectionKind|
            #[trigger] slot_of(cfg, k) matches Some(p) ==> {
                &&& p.position == last_kind_index(d, 0, k)
                &&& 0 <= p.position < d.len()
                &&& spec_kind_of(d[p.position].0@) == Some(k)
                &&& forall|j: int|
                    p.position < j < d.len() ==> spec_kind_of(d[j].0@) != Some(k)
                &&& spec_decode_section(k, d[p.position].1) matches Ok(sv) && p.value == sv
            },
        forall|k1: SectionKind, k2: SectionKind|
            {
                &&& #[trigger] slot_of(cfg, k1) matches Some(p1)
                &&& #[trigger] slot_of(cfg, k2) matches Some(p2)
                &&& k1 != k2
            } ==> slot_of(cfg, k1)->Some_0.position != slot_of(cfg, k2)->Some_0.position,
{
    lemma_fold_slots(d, 0, empty_config(), cfg);
    assert forall|k: SectionKind| (#[trigger] slot_of(cfg, k)) is Some implies last_kind_index(
        d,
        0,
        k,
    ) >= 0 by {
        if last_kind_index(d, 0, k) < 0 {
            assert(slot_of(cfg, k) == slot_of(empty_config(), k));
        }
    }
    assert forall|k: SectionKind| (#[trigger] slot_of(cfg, k)) is Some implies {
        let p = slot_of(cfg, k)->Some_0;
        &&& p.position == last_kind_index(d, 0, k)
        &&& 0 <= p.position < d.len()
        &&& spec_kind_of(d[p.position].0@) == Some(k)
        &&& forall|j: int| p.position < j < d.len() ==> spec_kind_of(d[j].0@) != Some(k)
        &&& spec_decode_section(k, d[p.position].1) matches Ok(sv) && p.value == sv
    } by {
        lemma_last_kind_index_props(d, 0, k);
        lemma_fold_success(d, 0, empty_config());
        assert(entry_ok(d, last_kind_index(d, 0, k)));
    }
}

/// Whether the configuration holds a slot of kind `k` at position `pos`.
pub open spec fn has_pair(cfg: ConfigV, pos: int, k: SectionKind) -> bool {
    slot_of(cfg, k) matches Some(p) && p.position == pos
}

/// Lists the present sections in author order: every listed pair is a
/// present kind at its recorded position, every present kind is listed at
/// its position, and the pairs come back sorted by position, so walking the
/// result renders sections as their author wrote them.
pub fn sections_in_order(cfg: &OrderedConfig) -> (r: Vec<(usize, SectionKind)>)
    ensures
        forall|i: int, j: int| 0 <= i < j < r@.len() ==> r@[i].0 <= r@[j].0,
        forall|i: int| 0 <= i < r@.len() ==> has_pair(cfg@, r@[i].0 as int, r@[i].1),
        forall|k: SectionKind|
            (#[trigger] slot_of(cfg@, k)) is Some ==> r@.contains(
                ((slot_of(cfg@, k)->Some_0.position) as usize, k),
            ),
{
    let mut max_pos: usize = 0;
    let mut any = false;
    if let Some(q) = &cfg.banner {
        if !any || q.position > max_pos {
            max_pos = q.position;
        }
        any = true;
    }
    if let Some(q) = &cfg.docker {
        if !any || q.position > max_pos {
            max_pos = q.position;
        }
        any = true;
    }
    if let Some(q) = &cfg.last_login {
        if !any || q.position > max_pos {
            max_pos = q.position;
        }
        any = true;
    }
    if let Some(q) = &cfg.last_run {
        if !any || q.position > max_pos {
            max_pos = q.position;
        }
        any = true;
    }
    let mut r: Vec<(usize, SectionKind)> = Vec::new();
    if !any {
        return r;
    }
    let mut p: usize = 0;
    loop
        invariant_except_break
            forall|i: int| 0 <= i < r@.len() ==> r@[i].0 < p,
            forall|k: SectionKind|
                #[trigger] slot_of(cfg@, k) matches Some(q) ==> (q.position < p ==> r@.contains(
                    ((q.position) as usize, k),
                )),
        invariant
            p <= max_pos,
            forall|k: SectionKind|
                #[trigger] slot_of(cfg@, k) matches Some(q) ==> 0 <= q.position <= max_pos,
            forall|i: int, j: int| 0 <= i < j < r@.len() ==> r@[i].0 <= r@[j].0,
            forall|i: int| 0 <= i < r@.len() ==> r@[i].0 <= p,
            forall|i: int| 0 <= i < r@.len() ==> has_pair(cfg@, r@[i].0 as int, r@[i].1),
        ensures
            forall|i: int, j: int| 0 <= i < j < r@.len() ==> r@[i].0 <= r@[j].0,
            forall|i: int| 0 <= i < r@.len() ==> has_pair(cfg@, r@[i].0 as int, r@[i].1),
            forall|k: SectionKind|
                #[trigger] slot_of(cfg@, k) matches Some(q) ==> r@.contains(
                    ((q.position) as usize, k),
                ),
        decreases max_pos - p,
    {
        if let Some(q) = &cfg.banner {
            if q.position == p {
                let ghost r0 = r@;
                r.push((p, SectionKind::Banner));
                proof {
                    lemma_push_keeps_contains(r0, (p, SectionKind::Banner));
                }
            }
        }
        if let Some(q) = &cfg.docker {
            if q.position == p {
                let ghost r0 = r@;
                r.push((p, SectionKind::Docker));
                proof {
                    lemma_push_keeps_contains(r0, (p, SectionKind::Docker));
                }
            }
        }
        if let Some(q) = &cfg.last_login {
            if q.position == p {
                let ghost r0 = r@;
                r.push((p, SectionKind::LastLogin));
                proof {
                    lemma_push_keeps_contains(r0, (p, SectionKind::LastLogin));
                }
            }
        }
        if let Some(q) = &cfg.last_run {
            if q.position == p {
                let ghost r0 = r@;
                r.push((p, SectionKind::LastRun));
                proof {
                    lemma_push_keeps_contains(r0, (p, SectionKind::LastRun));
                }
            }
        }
        if p == max_pos {
            break;
        }
        p += 1;
    }
    r
}

proof fn lemma_push_keeps_contains<A>(s: Seq<A>, e: A)
    ensures
        forall|x: A| s.contains(x) ==> #[trigger] s.push(e).contains(x),
        s.push(e).contains(e),
{
    assert forall|x: A| s.contains(x) implies #[trigger] s.push(e).contains(x) by {
        let i = choose|i: int| 0 <= i < s.len() && s[i] == x;
        assert(s.push(e)[i] == x);
    }
    assert(s.push(e)[s.len() as int] == e);
}

/// Whether the key at `i` is recognized and its value decodes under the
/// matched schema.
pub open spec fn entry_ok(d: Seq<(String, Value)>, i: int) -> bool {
    &&& spec_kind_of(d[i].0@) is Some
    &&& spec_decode_section(spec_kind_of(d[i].0@)->Some_0, d[i].1) is Ok
}

proof fn lemma_fold_success(d: Seq<(String, Value)>, i: int, acc: ConfigV)
    requires
        0 <= i <= d.len(),
    ensures
        spec_decode_from(d, i, acc) is Ok <==> forall|j: int| i <= j < d.len() ==> entry_ok(d, j),
    decreases d.len() - i,
{
    if i < d.len() {
        if entry_ok(d, i) {
            let k0 = spec_kind_of(d[i].0@)->Some_0;
            let sv0 = spec_decode_section(k0, d[i].1)->Ok_0;
            lemma_fold_success(d, i + 1, store_section(acc, i, sv0));
        }
    }
}

/// Exactly when decoding is owed to succeed: the document has at least one
/// key, every key names a recognized section, and every section's value
/// decodes under its schema.
pub proof fn lemma_decode_success_condition(d: Seq<(String, Value)>)
    ensures
        spec_decode(d) is Ok <==> (d.len() > 0 && forall|j: int|
            0 <= j < d.len() ==> entry_ok(d, j)),
{
    if d.len() > 0 {
        lemma_fold_success(d, 0, empty_config());
    }
}

} // verus!
