//! Request context for MIB handlers.

use vstd::prelude::*;

use crate::addr::SocketAddress;
use crate::agent::vacm::{SecurityModel, VacmConfig};
use crate::message::SecurityLevel;
use crate::pdu::PduType;
use crate::version::Version;

verus! {

/// Request context passed to MIB handlers.
///
/// Contains information about the incoming request for authorization
/// decisions, including the group and views that VACM resolved.
#[derive(Debug, Clone)]
pub struct RequestContext {
    /// Source address of the request.
    pub source: SocketAddress,
    /// SNMP version.
    pub version: Version,
    /// Security model used.
    pub security_model: SecurityModel,
    /// Security name (community string or username).
    pub security_name: Vec<u8>,
    /// Security level (v3 only, NoAuthNoPriv for v1/v2c).
    pub security_level: SecurityLevel,
    /// Context name (v3 only, empty for v1/v2c).
    pub context_name: Vec<u8>,
    /// Request ID from the PDU.
    pub request_id: i32,
    /// PDU type (GetRequest, GetNextRequest, etc.).
    pub pdu_type: PduType,
    /// Resolved group name (if VACM enabled).
    pub group_name: Option<Vec<u8>>,
    /// Read view name (if VACM enabled).
    pub read_view: Option<Vec<u8>>,
    /// Write view name (if VACM enabled).
    pub write_view: Option<Vec<u8>>,
}

/// The security model under which a request of a version is judged: the
/// community models for v1 and v2c, USM for v3.
pub open spec fn model_of(version: Version) -> SecurityModel {
    match version {
        Version::V1 => SecurityModel::V1,
        Version::V2c => SecurityModel::V2c,
        Version::V3 => SecurityModel::Usm,
    }
}

/// What a byte vector behind an option is.
pub open spec fn name_view(name: Option<Vec<u8>>) -> Option<Seq<u8>> {
    match name {
        Some(n) => Some(n@),
        None => None,
    }
}

impl RequestContext {
    /// The context of a request before access control has resolved
    /// anything: the model follows from the version, and no group or view is
    /// set.
    pub fn new(
        source: SocketAddress,
        version: Version,
        security_name: Vec<u8>,
        security_level: SecurityLevel,
        context_name: Vec<u8>,
        request_id: i32,
        pdu_type: PduType,
    ) -> (r: RequestContext)
        ensures
            r.source == source,
            r.version == version,
            r.security_model == model_of(version),
            r.security_name == security_name,
            r.security_level == security_level,
            r.context_name == context_name,
            r.request_id == request_id,
            r.pdu_type == pdu_type,
            r.group_name is None,
            r.read_view is None,
            r.write_view is None,
    {
        let security_model = match version {
            Version::V1 => SecurityModel::V1,
            Version::V2c => SecurityModel::V2c,
            Version::V3 => SecurityModel::Usm,
        };
        RequestContext {
            source,
            version,
            security_model,
            security_name,
            security_level,
            context_name,
            request_id,
            pdu_type,
            group_name: None,
            read_view: None,
            write_view: None,
        }
    }

    /// Resolves group and views from the VACM tables: the group of the
    /// security name under the model of the request, then the access entry
    /// that serves the group, context, model and level. Without a group, or
    /// without an entry, no view is set.
    pub fn resolve(&mut self, vacm: &VacmConfig)
        ensures
            final(self).source == old(self).source,
            final(self).version == old(self).version,
            final(self).security_model == old(self).security_model,
            final(self).security_name == old(self).security_name,
            final(self).security_level == old(self).security_level,
            final(self).context_name == old(self).context_name,
            final(self).request_id == old(self).request_id,
            final(self).pdu_type == old(self).pdu_type,
            name_view(final(self).group_name) == vacm.resolved_group(
                old(self).security_model,
                old(self).security_name@,
            ),
            match vacm.resolved_group(old(self).security_model, old(self).security_name@) {
                None => final(self).read_view is None && final(self).write_view is None,
                Some(group) => (final(self).read_view is None <==> final(self).write_view is None)
                    && match final(self).read_view {
                    None => forall|j: int|
                        0 <= j < vacm.entries().len() ==> !crate::agent::vacm::eligible(
                            #[trigger] vacm.entries()[j],
                            group,
                            old(self).context_name@,
                            old(self).security_model,
                            old(self).security_level,
                        ),
                    Some(read) => exists|k: int|
                        crate::agent::vacm::is_chosen(
                            vacm.entries(),
                            k,
                            group,
                            old(self).context_name@,
                            old(self).security_model,
                            old(self).security_level,
                        ) && read@ == (#[trigger] vacm.entries()[k]).read_view && name_view(
                            final(self).write_view,
                        ) == Some(vacm.entries()[k].write_view),
                },
            },
    {
        self.group_name = None;
        self.read_view = None;
        self.write_view = None;
        let group = match vacm.get_group(self.security_model, self.security_name.as_slice()) {
            None => {
                return ;
            },
            Some(g) => g.clone(),
        };
        match vacm.get_access(
            group.as_slice(),
            self.context_name.as_slice(),
            self.security_model,
            self.security_level,
        ) {
            None => {},
            Some(entry) => {
                self.read_view = Some(entry.read_view.clone());
                self.write_view = Some(entry.write_view.clone());
            },
        }
        self.group_name = Some(group);
    }
}

} // verus!
