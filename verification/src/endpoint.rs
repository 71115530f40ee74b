//! Resolution of the inbound endpoint used for the capture.
//!
//! The device's descriptor tree is held as plain data: configurations in
//! ascending index order, each with its interfaces, alternate settings and
//! endpoints in descriptor order. The resolver picks the first inbound
//! endpoint of the requested transfer type in that traversal order. If
//! several inbound endpoints of that type exist, only the first encountered
//! is guaranteed; this is an accepted ambiguity of the design.

use vstd::prelude::*;

use crate::Endpoint;

verus! {

/// Transfer type of an endpoint, as its descriptor reports it.
#[derive(Clone, Copy, Debug, PartialEq, Eq, Structural)]
pub enum TransferKind {
    Control,
    Isochronous,
    Bulk,
    Interrupt,
}

/// Direction of an endpoint: inbound (device to host) or outbound.
#[derive(Clone, Copy, Debug, PartialEq, Eq, Structural)]
pub enum EndpointDirection {
    In,
    Out,
}

/// One endpoint descriptor.
#[derive(Clone, Copy, Debug, PartialEq, Eq, Structural)]
pub struct EndpointDesc {
    pub address: u8,
    pub direction: EndpointDirection,
    pub transfer_kind: TransferKind,
}

/// One alternate setting of an interface, with its endpoints in descriptor
/// order.
pub struct AltSettingDesc {
    pub interface_number: u8,
    pub setting_number: u8,
    pub endpoints: Vec<EndpointDesc>,
}

/// One interface, with its alternate settings in descriptor order.
pub struct InterfaceDesc {
    pub alt_settings: Vec<AltSettingDesc>,
}

/// One configuration descriptor, with its interfaces in descriptor order.
pub struct ConfigDesc {
    pub number: u8,
    pub interfaces: Vec<InterfaceDesc>,
}

/// A device's descriptor tree, configurations in ascending index order.
///
/// `None` stands for a configuration whose descriptor could not be read; the
/// resolver skips such a configuration instead of failing.
pub struct DeviceTree {
    pub configs: Vec<Option<ConfigDesc>>,
}

/// An endpoint qualifies when it is inbound and of the requested transfer
/// type.
pub open spec fn endpoint_matches(e: EndpointDesc, kind: TransferKind) -> bool {
    e.direction == EndpointDirection::In && e.transfer_kind == kind
}

/// First qualifying endpoint of one alternate setting, in descriptor order,
/// assembled with the numbers of the levels above it.
pub open spec fn resolve_endpoints(
    cfg: u8,
    ifn: u8,
    setn: u8,
    eps: Seq<EndpointDesc>,
    kind: TransferKind,
) -> Option<Endpoint>
    decreases eps.len(),
{
    if eps.len() == 0 {
        None
    } else if endpoint_matches(eps[0], kind) {
        Some(Endpoint { config: cfg, iface: ifn, setting: setn, address: eps[0].address })
    } else {
        resolve_endpoints(cfg, ifn, setn, eps.subrange(1, eps.len() as int), kind)
    }
}

/// First resolution over the alternate settings of one interface.
pub open spec fn resolve_alt_settings(
    cfg: u8,
    alts: Seq<AltSettingDesc>,
    kind: TransferKind,
) -> Option<Endpoint>
    decreases alts.len(),
{
    if alts.len() == 0 {
        None
    } else {
        let r = resolve_endpoints(
            cfg,
            alts[0].interface_number,
            alts[0].setting_number,
            alts[0].endpoints@,
            kind,
        );
        if r is Some {
            r
        } else {
            resolve_alt_settings(cfg, alts.subrange(1, alts.len() as int), kind)
        }
    }
}

/// First resolution over the interfaces of one configuration.
pub open spec fn resolve_interfaces(
    cfg: u8,
    ifaces: Seq<InterfaceDesc>,
    kind: TransferKind,
) -> Option<Endpoint>
    decreases ifaces.len(),
{
    if ifaces.len() == 0 {
        None
    } else {
        let r = resolve_alt_settings(cfg, ifaces[0].alt_settings@, kind);
        if r is Some {
            r
        } else {
            resolve_interfaces(cfg, ifaces.subrange(1, ifaces.len() as int), kind)
        }
    }
}

/// First resolution over the configurations of a tree; an unreadable
/// configuration (`None`) yields nothing and is skipped.
pub open spec fn resolve_configs(
    cfgs: Seq<Option<ConfigDesc>>,
    kind: TransferKind,
) -> Option<Endpoint>
    decreases cfgs.len(),
{
    if cfgs.len() == 0 {
        None
    } else {
        let r = match cfgs[0] {
            Some(c) => resolve_interfaces(c.number, c.interfaces@, kind),
            None => None,
        };
        if r is Some {
            r
        } else {
            resolve_configs(cfgs.subrange(1, cfgs.len() as int), kind)
        }
    }
}

/// The first inbound endpoint of the requested transfer type, in
/// (configuration, interface, alternate setting, endpoint) traversal order;
/// nothing if no such endpoint exists in any readable configuration.
pub open spec fn spec_find_readable_endpoint(tree: DeviceTree, kind: TransferKind) -> Option<
    Endpoint,
> {
    resolve_configs(tree.configs@, kind)
}

/// Some endpoint of the sequence qualifies.
pub open spec fn eps_have_match(eps: Seq<EndpointDesc>, kind: TransferKind) -> bool {
    exists|e: int| 0 <= e < eps.len() && endpoint_matches(#[trigger] eps[e], kind)
}

/// Some alternate setting of the sequence holds a qualifying endpoint.
pub open spec fn alts_have_match(alts: Seq<AltSettingDesc>, kind: TransferKind) -> bool {
    exists|a: int| 0 <= a < alts.len() && eps_have_match(#[trigger] alts[a].endpoints@, kind)
}

/// Some interface of the sequence holds a qualifying endpoint.
pub open spec fn ifaces_have_match(ifaces: Seq<InterfaceDesc>, kind: TransferKind) -> bool {
    exists|i: int|
        0 <= i < ifaces.len() && alts_have_match(#[trigger] ifaces[i].alt_settings@, kind)
}

/// Some readable configuration of the sequence holds a qualifying endpoint.
pub open spec fn configs_have_match(cfgs: Seq<Option<ConfigDesc>>, kind: TransferKind) -> bool {
    exists|c: int|
        0 <= c < cfgs.len() && ((#[trigger] cfgs[c]) matches Some(cd) && ifaces_have_match(
            cd.interfaces@,
            kind,
        ))
}

proof fn lemma_resolve_endpoints_exhaustive(
    cfg: u8,
    ifn: u8,
    setn: u8,
    eps: Seq<EndpointDesc>,
    kind: TransferKind,
)
    ensures
        resolve_endpoints(cfg, ifn, setn, eps, kind) is Some <==> eps_have_match(eps, kind),
    decreases eps.len(),
{
    if eps.len() == 0 {
    } else if endpoint_matches(eps[0], kind) {
        assert(eps_have_match(eps, kind));
    } else {
        let tail = eps.subrange(1, eps.len() as int);
        lemma_resolve_endpoints_exhaustive(cfg, ifn, setn, tail, kind);
        if eps_have_match(eps, kind) {
            let e = choose|e: int| 0 <= e < eps.len() && endpoint_matches(#[trigger] eps[e], kind);
            assert(tail[e - 1] == eps[e]);
            assert(eps_have_match(tail, kind));
        }
        if eps_have_match(tail, kind) {
            let e = choose|e: int|
                0 <= e < tail.len() && endpoint_matches(#[trigger] tail[e], kind);
            assert(eps[e + 1] == tail[e]);
            assert(eps_have_match(eps, kind));
        }
    }
}

proof fn lemma_resolve_alt_settings_exhaustive(
    cfg: u8,
    alts: Seq<AltSettingDesc>,
    kind: TransferKind,
)
    ensures
        resolve_alt_settings(cfg, alts, kind) is Some <==> alts_have_match(alts, kind),
    decreases alts.len(),
{
    if alts.len() == 0 {
    } else {
        lemma_resolve_endpoints_exhaustive(
            cfg,
            alts[0].interface_number,
            alts[0].setting_number,
            alts[0].endpoints@,
            kind,
        );
        let tail = alts.subrange(1, alts.len() as int);
        lemma_resolve_alt_settings_exhaustive(cfg, tail, kind);
        if eps_have_match(alts[0].endpoints@, kind) {
            assert(alts_have_match(alts, kind));
        } else {
            if alts_have_match(alts, kind) {
                let a = choose|a: int|
                    0 <= a < alts.len() && eps_have_match(#[trigger] alts[a].endpoints@, kind);
                assert(tail[a - 1] == alts[a]);
                assert(alts_have_match(tail, kind));
            }
            if alts_have_match(tail, kind) {
                let a = choose|a: int|
                    0 <= a < tail.len() && eps_have_match(#[trigger] tail[a].endpoints@, kind);
                assert(alts[a + 1] == tail[a]);
                assert(alts_have_match(alts, kind));
            }
        }
    }
}

proof fn lemma_resolve_interfaces_exhaustive(
    cfg: u8,
    ifaces: Seq<InterfaceDesc>,
    kind: TransferKind,
)
    ensures
        resolve_interfaces(cfg, ifaces, kind) is Some <==> ifaces_have_match(ifaces, kind),
    decreases ifaces.len(),
{
    if ifaces.len() == 0 {
    } else {
        lemma_resolve_alt_settings_exhaustive(cfg, ifaces[0].alt_settings@, kind);
        let tail = ifaces.subrange(1, ifaces.len() as int);
        lemma_resolve_interfaces_exhaustive(cfg, tail, kind);
        if alts_have_match(ifaces[0].alt_settings@, kind) {
            assert(ifaces_have_match(ifaces, kind));
        } else {
            if ifaces_have_match(ifaces, kind) {
                let i = choose|i: int|
                    0 <= i < ifaces.len() && alts_have_match(
                        #[trigger] ifaces[i].alt_settings@,
                        kind,
                    );
                assert(tail[i - 1] == ifaces[i]);
                assert(ifaces_have_match(tail, kind));
            }
            if ifaces_have_match(tail, kind) {
                let i = choose|i: int|
                    0 <= i < tail.len() && alts_have_match(#[trigger] tail[i].alt_settings@, kind);
                assert(ifaces[i + 1] == tail[i]);
                assert(ifaces_have_match(ifaces, kind));
            }
        }
    }
}

proof fn lemma_resolve_configs_exhaustive(cfgs: Seq<Option<ConfigDesc>>, kind: TransferKind)
    ensures
        resolve_configs(cfgs, kind) is Some <==> configs_have_match(cfgs, kind),
    decreases cfgs.len(),
{
    if cfgs.len() == 0 {
    } else {
        if let Some(cd) = cfgs[0] {
            lemma_resolve_interfaces_exhaustive(cd.number, cd.interfaces@, kind);
        }
        let tail = cfgs.subrange(1, cfgs.len() as int);
        lemma_resolve_configs_exhaustive(tail, kind);
        let head_matches = cfgs[0] matches Some(cd) && ifaces_have_match(cd.interfaces@, kind);
        if head_matches {
            assert(configs_have_match(cfgs, kind));
        } else {
            if configs_have_match(cfgs, kind) {
                let c = choose|c: int|
                    0 <= c < cfgs.len() && ((#[trigger] cfgs[c]) matches Some(cd)
                        && ifaces_have_match(cd.interfaces@, kind));
                assert(tail[c - 1] == cfgs[c]);
                assert(configs_have_match(tail, kind));
            }
            if configs_have_match(tail, kind) {
                let c = choose|c: int|
                    0 <= c < tail.len() && ((#[trigger] tail[c]) matches Some(cd)
                        && ifaces_have_match(cd.interfaces@, kind));
                assert(cfgs[c + 1] == tail[c]);
                assert(configs_have_match(cfgs, kind));
            }
        }
    }
}

/// Some endpoint of the sequence qualifies and assembles, with the given
/// configuration, interface and setting numbers, to exactly `ep`.
pub open spec fn eps_yield(
    cfg: u8,
    ifn: u8,
    setn: u8,
    eps: Seq<EndpointDesc>,
    kind: TransferKind,
    ep: Endpoint,
) -> bool {
    exists|e: int|
        0 <= e < eps.len() && endpoint_matches(#[trigger] eps[e], kind) && ep == Endpoint {
            config: cfg,
            iface: ifn,
            setting: setn,
            address: eps[e].address,
        }
}

/// Some alternate setting of the sequence yields `ep`, its own numbers
/// included.
pub open spec fn alts_yield(
    cfg: u8,
    alts: Seq<AltSettingDesc>,
    kind: TransferKind,
    ep: Endpoint,
) -> bool {
    exists|a: int|
        0 <= a < alts.len() && eps_yield(
            cfg,
            (#[trigger] alts[a]).interface_number,
            alts[a].setting_number,
            alts[a].endpoints@,
            kind,
            ep,
        )
}

/// Some interface of the sequence yields `ep`.
pub open spec fn ifaces_yield(
    cfg: u8,
    ifaces: Seq<InterfaceDesc>,
    kind: TransferKind,
    ep: Endpoint,
) -> bool {
    exists|i: int|
        0 <= i < ifaces.len() && alts_yield(cfg, (#[trigger] ifaces[i]).alt_settings@, kind, ep)
}

/// Some readable configuration of the sequence yields `ep`, its own number
/// included.
pub open spec fn configs_yield(
    cfgs: Seq<Option<ConfigDesc>>,
    kind: TransferKind,
    ep: Endpoint,
) -> bool {
    exists|c: int|
        0 <= c < cfgs.len() && ((#[trigger] cfgs[c]) matches Some(cd) && ifaces_yield(
            cd.number,
            cd.interfaces@,
            kind,
            ep,
        ))
}

proof fn lemma_resolve_endpoints_sound(
    cfg: u8,
    ifn: u8,
    setn: u8,
    eps: Seq<EndpointDesc>,
    kind: TransferKind,
)
    ensures
        resolve_endpoints(cfg, ifn, setn, eps, kind) matches Some(ep) ==> eps_yield(
            cfg,
            ifn,
            setn,
            eps,
            kind,
            ep,
        ),
    decreases eps.len(),
{
    if eps.len() == 0 {
    } else if endpoint_matches(eps[0], kind) {
    } else {
        let tail = eps.subrange(1, eps.len() as int);
        lemma_resolve_endpoints_sound(cfg, ifn, setn, tail, kind);
        if let Some(ep) = resolve_endpoints(cfg, ifn, setn, eps, kind) {
            let e = choose|e: int|
                0 <= e < tail.len() && endpoint_matches(#[trigger] tail[e], kind) && ep
                    == Endpoint { config: cfg, iface: ifn, setting: setn, address: tail[e].address };
            assert(eps[e + 1] == tail[e]);
            assert(eps_yield(cfg, ifn, setn, eps, kind, ep));
        }
    }
}

proof fn lemma_resolve_alt_settings_sound(cfg: u8, alts: Seq<AltSettingDesc>, kind: TransferKind)
    ensures
        resolve_alt_settings(cfg, alts, kind) matches Some(ep) ==> alts_yield(cfg, alts, kind, ep),
    decreases alts.len(),
{
    if alts.len() == 0 {
    } else {
        lemma_resolve_endpoints_sound(
            cfg,
            alts[0].interface_number,
            alts[0].setting_number,
            alts[0].endpoints@,
            kind,
        );
        let tail = alts.subrange(1, alts.len() as int);
        lemma_resolve_alt_settings_sound(cfg, tail, kind);
        if let Some(ep) = resolve_alt_settings(cfg, alts, kind) {
            if resolve_endpoints(
                cfg,
                alts[0].interface_number,
                alts[0].setting_number,
                alts[0].endpoints@,
                kind,
            ) is Some {
                assert(alts_yield(cfg, alts, kind, ep));
            } else {
                let a = choose|a: int|
                    0 <= a < tail.len() && eps_yield(
                        cfg,
                        (#[trigger] tail[a]).interface_number,
                        tail[a].setting_number,
                        tail[a].endpoints@,
                        kind,
                        ep,
                    );
                assert(alts[a + 1] == tail[a]);
                assert(alts_yield(cfg, alts, kind, ep));
            }
        }
    }
}

proof fn lemma_resolve_interfaces_sound(cfg: u8, ifaces: Seq<InterfaceDesc>, kind: TransferKind)
    ensures
        resolve_interfaces(cfg, ifaces, kind) matches Some(ep) ==> ifaces_yield(
            cfg,
            ifaces,
            kind,
            ep,
        ),
    decreases ifaces.len(),
{
    if ifaces.len() == 0 {
    } else {
        lemma_resolve_alt_settings_sound(cfg, ifaces[0].alt_settings@, kind);
        let tail = ifaces.subrange(1, ifaces.len() as int);
        lemma_resolve_interfaces_sound(cfg, tail, kind);
        if let Some(ep) = resolve_interfaces(cfg, ifaces, kind) {
            if resolve_alt_settings(cfg, ifaces[0].alt_settings@, kind) is Some {
                assert(ifaces_yield(cfg, ifaces, kind, ep));
            } else {
                let i = choose|i: int|
                    0 <= i < tail.len() && alts_yield(
                        cfg,
                        (#[trigger] tail[i]).alt_settings@,
                        kind,
                        ep,
                    );
                assert(ifaces[i + 1] == tail[i]);
                assert(ifaces_yield(cfg, ifaces, kind, ep));
            }
        }
    }
}

proof fn lemma_resolve_configs_sound(cfgs: Seq<Option<ConfigDesc>>, kind: TransferKind)
    ensures
        resolve_configs(cfgs, kind) matches Some(ep) ==> configs_yield(cfgs, kind, ep),
    decreases cfgs.len(),
{
    if cfgs.len() == 0 {
    } else {
        if let Some(cd) = cfgs[0] {
            lemma_resolve_interfaces_sound(cd.number, cd.interfaces@, kind);
        }
        let tail = cfgs.subrange(1, cfgs.len() as int);
        lemma_resolve_configs_sound(tail, kind);
        if let Some(ep) = resolve_configs(cfgs, kind) {
            let head = match cfgs[0] {
                Some(c) => resolve_interfaces(c.number, c.interfaces@, kind),
                None => None,
            };
            if head is Some {
                assert(configs_yield(cfgs, kind, ep));
            } else {
                let c = choose|c: int|
                    0 <= c < tail.len() && ((#[trigger] tail[c]) matches Some(cd)
                        && ifaces_yield(cd.number, cd.interfaces@, kind, ep));
                assert(cfgs[c + 1] == tail[c]);
                assert(configs_yield(cfgs, kind, ep));
            }
        }
    }
}

/// Whatever the resolver yields is genuine: an endpoint it returns is
/// assembled from one inbound endpoint of the requested transfer type that
/// the tree really holds, and its configuration, interface and alternate
/// setting numbers all come from that endpoint's own branch of the
/// traversal — never mixed from different branches.
pub proof fn lemma_resolver_sound(tree: DeviceTree, kind: TransferKind)
    ensures
        spec_find_readable_endpoint(tree, kind) matches Some(ep) ==> configs_yield(
            tree.configs@,
            kind,
            ep,
        ),
{
    lemma_resolve_configs_sound(tree.configs@, kind);
}

/// The resolver yields an endpoint if and only if some readable configuration
/// of the tree holds an inbound endpoint of the requested transfer type;
/// equivalently, it returns nothing exactly when no such endpoint exists
/// anywhere in the tree.
pub proof fn lemma_resolver_exhaustive(tree: DeviceTree, kind: TransferKind)
    ensures
        spec_find_readable_endpoint(tree, kind) is Some <==> configs_have_match(
            tree.configs@,
            kind,
        ),
{
    lemma_resolve_configs_exhaustive(tree.configs@, kind);
}

/// What one endpoint descriptor contributes: the assembled endpoint when it
/// qualifies, nothing otherwise.
pub open spec fn endpoint_result(
    cfg: u8,
    ifn: u8,
    setn: u8,
    e: EndpointDesc,
    kind: TransferKind,
) -> Option<Endpoint> {
    if endpoint_matches(e, kind) {
        Some(Endpoint { config: cfg, iface: ifn, setting: setn, address: e.address })
    } else {
        None
    }
}

/// What one alternate setting contributes.
pub open spec fn alt_result(cfg: u8, alt: AltSettingDesc, kind: TransferKind) -> Option<Endpoint> {
    resolve_endpoints(cfg, alt.interface_number, alt.setting_number, alt.endpoints@, kind)
}

/// What one interface contributes.
pub open spec fn iface_result(cfg: u8, iface: InterfaceDesc, kind: TransferKind) -> Option<
    Endpoint,
> {
    resolve_alt_settings(cfg, iface.alt_settings@, kind)
}

/// What one configuration contributes; an unreadable one contributes
/// nothing.
pub open spec fn config_result(c: Option<ConfigDesc>, kind: TransferKind) -> Option<Endpoint> {
    match c {
        Some(cd) => resolve_interfaces(cd.number, cd.interfaces@, kind),
        None => None,
    }
}

/// Within one alternate setting, the first qualifying endpoint wins: the
/// result comes from an endpoint before which every endpoint contributes
/// nothing.
pub proof fn lemma_resolve_endpoints_first(
    cfg: u8,
    ifn: u8,
    setn: u8,
    eps: Seq<EndpointDesc>,
    kind: TransferKind,
)
    ensures
        resolve_endpoints(cfg, ifn, setn, eps, kind) matches Some(ep) ==> exists|e: int|
            0 <= e < eps.len() && #[trigger] endpoint_result(cfg, ifn, setn, eps[e], kind) == Some(
                ep,
            ) && (forall|j: int|
                0 <= j < e ==> endpoint_result(cfg, ifn, setn, #[trigger] eps[j], kind) is None),
    decreases eps.len(),
{
    if eps.len() == 0 {
    } else if endpoint_matches(eps[0], kind) {
        let ep = resolve_endpoints(cfg, ifn, setn, eps, kind)->Some_0;
        assert(endpoint_result(cfg, ifn, setn, eps[0], kind) == Some(ep));
    } else {
        let tail = eps.subrange(1, eps.len() as int);
        lemma_resolve_endpoints_first(cfg, ifn, setn, tail, kind);
        if let Some(ep) = resolve_endpoints(cfg, ifn, setn, eps, kind) {
            let e = choose|e: int|
                0 <= e < tail.len() && #[trigger] endpoint_result(cfg, ifn, setn, tail[e], kind)
                    == Some(ep) && (forall|j: int|
                    0 <= j < e ==> endpoint_result(cfg, ifn, setn, #[trigger] tail[j], kind)
                        is None);
            assert(eps[e + 1] == tail[e]);
            assert forall|j: int| 0 <= j < e + 1 implies endpoint_result(
                cfg,
                ifn,
                setn,
                #[trigger] eps[j],
                kind,
            ) is None by {
                if j > 0 {
                    assert(tail[j - 1] == eps[j]);
                }
            }
            assert(endpoint_result(cfg, ifn, setn, eps[e + 1], kind) == Some(ep));
        }
    }
}

/// Within one interface, the first alternate setting that contributes
/// anything wins.
pub proof fn lemma_resolve_alt_settings_first(
    cfg: u8,
    alts: Seq<AltSettingDesc>,
    kind: TransferKind,
)
    ensures
        resolve_alt_settings(cfg, alts, kind) matches Some(ep) ==> exists|a: int|
            0 <= a < alts.len() && #[trigger] alt_result(cfg, alts[a], kind) == Some(ep) && (
            forall|j: int| 0 <= j < a ==> alt_result(cfg, #[trigger] alts[j], kind) is None),
    decreases alts.len(),
{
    if alts.len() == 0 {
    } else if alt_result(cfg, alts[0], kind) is Some {
        let ep = resolve_alt_settings(cfg, alts, kind)->Some_0;
        assert(alt_result(cfg, alts[0], kind) == Some(ep));
    } else {
        let tail = alts.subrange(1, alts.len() as int);
        lemma_resolve_alt_settings_first(cfg, tail, kind);
        if let Some(ep) = resolve_alt_settings(cfg, alts, kind) {
            let a = choose|a: int|
                0 <= a < tail.len() && #[trigger] alt_result(cfg, tail[a], kind) == Some(ep) && (
                forall|j: int| 0 <= j < a ==> alt_result(cfg, #[trigger] tail[j], kind) is None);
            assert(alts[a + 1] == tail[a]);
            assert forall|j: int| 0 <= j < a + 1 implies alt_result(
                cfg,
                #[trigger] alts[j],
                kind,
            ) is None by {
                if j > 0 {
                    assert(tail[j - 1] == alts[j]);
                }
            }
            assert(alt_result(cfg, alts[a + 1], kind) == Some(ep));
        }
    }
}

/// Within one configuration, the first interface that contributes anything
/// wins.
pub proof fn lemma_resolve_interfaces_first(
    cfg: u8,
    ifaces: Seq<InterfaceDesc>,
    kind: TransferKind,
)
    ensures
        resolve_interfaces(cfg, ifaces, kind) matches Some(ep) ==> exists|i: int|
            0 <= i < ifaces.len() && #[trigger] iface_result(cfg, ifaces[i], kind) == Some(ep) && (
            forall|j: int| 0 <= j < i ==> iface_result(cfg, #[trigger] ifaces[j], kind) is None),
    decreases ifaces.len(),
{
    if ifaces.len() == 0 {
    } else if iface_result(cfg, ifaces[0], kind) is Some {
        let ep = resolve_interfaces(cfg, ifaces, kind)->Some_0;
        assert(iface_result(cfg, ifaces[0], kind) == Some(ep));
    } else {
        let tail = ifaces.subrange(1, ifaces.len() as int);
        lemma_resolve_interfaces_first(cfg, tail, kind);
        if let Some(ep) = resolve_interfaces(cfg, ifaces, kind) {
            let i = choose|i: int|
                0 <= i < tail.len() && #[trigger] iface_result(cfg, tail[i], kind) == Some(ep) && (
                forall|j: int| 0 <= j < i ==> iface_result(cfg, #[trigger] tail[j], kind) is None);
            assert(ifaces[i + 1] == tail[i]);
            assert forall|j: int| 0 <= j < i + 1 implies iface_result(
                cfg,
                #[trigger] ifaces[j],
                kind,
            ) is None by {
                if j > 0 {
                    assert(tail[j - 1] == ifaces[j]);
                }
            }
            assert(iface_result(cfg, ifaces[i + 1], kind) == Some(ep));
        }
    }
}

/// Across the tree, the first configuration that contributes anything wins:
/// the resolver's result comes from a configuration before which every
/// configuration — readable or not — contributes nothing. Together with the
/// per-level statements above, the result is the first qualifying endpoint
/// in (configuration, interface, alternate setting, endpoint) traversal
/// order.
pub proof fn lemma_resolve_configs_first(cfgs: Seq<Option<ConfigDesc>>, kind: TransferKind)
    ensures
        resolve_configs(cfgs, kind) matches Some(ep) ==> exists|c: int|
            0 <= c < cfgs.len() && #[trigger] config_result(cfgs[c], kind) == Some(ep) && (forall|
                j: int,
            |
                0 <= j < c ==> config_result(#[trigger] cfgs[j], kind) is None),
    decreases cfgs.len(),
{
    if cfgs.len() == 0 {
    } else if config_result(cfgs[0], kind) is Some {
        let ep = resolve_configs(cfgs, kind)->Some_0;
        assert(config_result(cfgs[0], kind) == Some(ep));
    } else {
        let tail = cfgs.subrange(1, cfgs.len() as int);
        lemma_resolve_configs_first(tail, kind);
        if let Some(ep) = resolve_configs(cfgs, kind) {
            let c = choose|c: int|
                0 <= c < tail.len() && #[trigger] config_result(tail[c], kind) == Some(ep) && (
                forall|j: int| 0 <= j < c ==> config_result(#[trigger] tail[j], kind) is None);
            assert(cfgs[c + 1] == tail[c]);
            assert forall|j: int| 0 <= j < c + 1 implies config_result(
                #[trigger] cfgs[j],
                kind,
            ) is None by {
                if j > 0 {
                    assert(tail[j - 1] == cfgs[j]);
                }
            }
            assert(config_result(cfgs[c + 1], kind) == Some(ep));
        }
    }
}

fn scan_endpoints(cfg: u8, ifn: u8, setn: u8, eps: &Vec<EndpointDesc>, kind: TransferKind) -> (r:
    Option<Endpoint>)
    ensures
        r == resolve_endpoints(cfg, ifn, setn, eps@, kind),
{
    let mut n: usize = 0;
    assert(eps@.subrange(0, eps@.len() as int) =~= eps@);
    while n < eps.len()
        invariant
            n <= eps.len(),
            resolve_endpoints(cfg, ifn, setn, eps@, kind) == resolve_endpoints(
                cfg,
                ifn,
                setn,
                eps@.subrange(n as int, eps@.len() as int),
                kind,
            ),
        decreases eps.len() - n,
    {
        let ghost sub = eps@.subrange(n as int, eps@.len() as int);
        assert(sub[0] == eps@[n as int]);
        let e = eps[n];
        if e.direction == EndpointDirection::In && e.transfer_kind == kind {
            return Some(Endpoint { config: cfg, iface: ifn, setting: setn, address: e.address });
        }
        proof {
            assert(sub.subrange(1, sub.len() as int) =~= eps@.subrange(
                n + 1 as int,
                eps@.len() as int,
            ));
        }
        n += 1;
    }
    assert(eps@.subrange(n as int, eps@.len() as int).len() == 0);
    None
}

fn scan_alt_settings(cfg: u8, alts: &Vec<AltSettingDesc>, kind: TransferKind) -> (r: Option<
    Endpoint,
>)
    ensures
        r == resolve_alt_settings(cfg, alts@, kind),
{
    let mut n: usize = 0;
    assert(alts@.subrange(0, alts@.len() as int) =~= alts@);
    while n < alts.len()
        invariant
            n <= alts.len(),
            resolve_alt_settings(cfg, alts@, kind) == resolve_alt_settings(
                cfg,
                alts@.subrange(n as int, alts@.len() as int),
                kind,
            ),
        decreases alts.len() - n,
    {
        let ghost sub = alts@.subrange(n as int, alts@.len() as int);
        assert(sub[0] == alts@[n as int]);
        let alt = &alts[n];
        let r = scan_endpoints(cfg, alt.interface_number, alt.setting_number, &alt.endpoints, kind);
        if r.is_some() {
            return r;
        }
        proof {
            assert(sub.subrange(1, sub.len() as int) =~= alts@.subrange(
                n + 1 as int,
                alts@.len() as int,
            ));
        }
        n += 1;
    }
    assert(alts@.subrange(n as int, alts@.len() as int).len() == 0);
    None
}

fn scan_interfaces(cfg: u8, ifaces: &Vec<InterfaceDesc>, kind: TransferKind) -> (r: Option<
    Endpoint,
>)
    ensures
        r == resolve_interfaces(cfg, ifaces@, kind),
{
    let mut n: usize = 0;
    assert(ifaces@.subrange(0, ifaces@.len() as int) =~= ifaces@);
    while n < ifaces.len()
        invariant
            n <= ifaces.len(),
            resolve_interfaces(cfg, ifaces@, kind) == resolve_interfaces(
                cfg,
                ifaces@.subrange(n as int, ifaces@.len() as int),
                kind,
            ),
        decreases ifaces.len() - n,
    {
        let ghost sub = ifaces@.subrange(n as int, ifaces@.len() as int);
        assert(sub[0] == ifaces@[n as int]);
        let r = scan_alt_settings(cfg, &ifaces[n].alt_settings, kind);
        if r.is_some() {
            return r;
        }
        proof {
            assert(sub.subrange(1, sub.len() as int) =~= ifaces@.subrange(
                n + 1 as int,
                ifaces@.len() as int,
            ));
        }
        n += 1;
    }
    assert(ifaces@.subrange(n as int, ifaces@.len() as int).len() == 0);
    None
}

/// Select the first inbound endpoint of the requested transfer type from a
/// descriptor tree. A purely descriptive lookup: nothing is opened or
/// claimed.
pub fn find_readable_endpoint(tree: &DeviceTree, kind: TransferKind) -> (r: Option<Endpoint>)
    ensures
        r == spec_find_readable_endpoint(*tree, kind),
{
    let mut n: usize = 0;
    assert(tree.configs@.subrange(0, tree.configs@.len() as int) =~= tree.configs@);
    while n < tree.configs.len()
        invariant
            n <= tree.configs.len(),
            resolve_configs(tree.configs@, kind) == resolve_configs(
                tree.configs@.subrange(n as int, tree.configs@.len() as int),
                kind,
            ),
        decreases tree.configs.len() - n,
    {
        let ghost sub = tree.configs@.subrange(n as int, tree.configs@.len() as int);
        assert(sub[0] == tree.configs@[n as int]);
        match &tree.configs[n] {
            Some(c) => {
                let r = scan_interfaces(c.number, &c.interfaces, kind);
                if r.is_some() {
                    return r;
                }
            },
            None => {},
        }
        proof {
            assert(sub.subrange(1, sub.len() as int) =~= tree.configs@.subrange(
                n + 1 as int,
                tree.configs@.len() as int,
            ));
        }
        n += 1;
    }
    assert(tree.configs@.subrange(n as int, tree.configs@.len() as int).len() == 0);
    None
}

} // verus!
