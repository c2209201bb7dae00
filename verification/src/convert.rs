//! Conversion between domain values and their wire shapes.
//!
//! Each direction carries its exact meaning as a spec relation on the
//! trait, so that the round trip — a peer record sent to the wire and
//! read back — is proved to restore the original value.

use crate::addr::{ip_text, ip_to_string, lemma_ip_text_round_trip, parse_ip, spec_parse_ip};
use crate::digits::{
    all_dec_digits, dec_seq_value, lemma_u64_dec_round_trip, parse_u64_dec, u64_dec,
    u64_to_dec_string, IntParseError,
};
use crate::node_info::NodeInfo;
use crate::wire::NodeInfoMsg;
use vstd::prelude::*;

verus! {

/// Why a wire value could not be read back into a domain value.
#[derive(Clone, Copy, PartialEq, Eq, Structural, Debug)]
pub enum ConversionError {
    /// A numeral field was malformed or out of range.
    ParseIntError(IntParseError),
    /// An address field was not valid address text.
    AddrParseError,
    /// The fields were readable but denote no domain value (a port
    /// beyond sixteen bits).
    ConversionFailed,
}

/// An infallible conversion into the wire shape `T`.
pub trait ToProto<T> {
    /// What it means for `msg` to be the wire form of `self`.
    spec fn proto_matches(&self, msg: &T) -> bool;

    fn to_proto(&self) -> (r: T)
        ensures
            self.proto_matches(&r),
    ;
}

/// A conversion into the wire shape `T` that may fail.
pub trait TryToProto<T> {
    type Error;

    /// What it means for `r` to be the outcome of converting `self`.
    spec fn try_proto_matches(&self, r: &Result<T, Self::Error>) -> bool;

    fn try_to_proto(&self) -> (r: Result<T, Self::Error>)
        ensures
            self.try_proto_matches(&r),
    ;
}

/// An infallible conversion from the wire into the domain shape `T`.
pub trait ToDomain<T> {
    /// What it means for `r` to be the domain form of `self`.
    spec fn domain_matches(&self, r: &T) -> bool;

    fn to_domain(&self) -> (r: T)
        ensures
            self.domain_matches(&r),
    ;
}

/// A conversion from the wire into the domain shape `T` that may fail.
pub trait TryToDomain<T> {
    type Error;

    /// What it means for `r` to be the outcome of converting `self`.
    spec fn try_domain_matches(&self, r: &Result<T, Self::Error>) -> bool;

    fn try_to_domain(&self) -> (r: Result<T, Self::Error>)
        ensures
            self.try_domain_matches(&r),
    ;
}

/// An infallible conversion to the wire is in particular a fallible one
/// that never fails.
impl<T, F: ToProto<T>> TryToProto<T> for F {
    type Error = ConversionError;

    open spec fn try_proto_matches(&self, r: &Result<T, ConversionError>) -> bool {
        match r {
            Ok(msg) => self.proto_matches(msg),
            Err(_) => false,
        }
    }

    fn try_to_proto(&self) -> (r: Result<T, ConversionError>) {
        Ok(self.to_proto())
    }
}

/// An infallible conversion to the domain is in particular a fallible one
/// that never fails.
impl<T, F: ToDomain<T>> TryToDomain<T> for F {
    type Error = ConversionError;

    open spec fn try_domain_matches(&self, r: &Result<T, ConversionError>) -> bool {
        match r {
            Ok(v) => self.domain_matches(v),
            Err(_) => false,
        }
    }

    fn try_to_domain(&self) -> (r: Result<T, ConversionError>) {
        Ok(self.to_domain())
    }
}

impl ToProto<NodeInfoMsg> for NodeInfo {
    /// The wire form: the identifier as its decimal numeral, the address
    /// as its canonical text, the port widened.
    open spec fn proto_matches(&self, msg: &NodeInfoMsg) -> bool {
        &&& msg.id@ == u64_dec(self.id as nat)
        &&& msg.ip@ == ip_text(self.address)
        &&& msg.port == self.port as u32
    }

    fn to_proto(&self) -> (r: NodeInfoMsg) {
        NodeInfoMsg {
            id: u64_to_dec_string(self.id),
            ip: ip_to_string(&self.address),
            port: self.port as u32,
        }
    }
}

impl TryToDomain<NodeInfo> for NodeInfoMsg {
    type Error = ConversionError;

    /// Success exactly when the identifier is a decimal numeral that fits
    /// a `u64`, the address text parses, and the port fits sixteen bits;
    /// each error names the first field refused, in that order.
    open spec fn try_domain_matches(&self, r: &Result<NodeInfo, ConversionError>) -> bool {
        match r {
            Ok(info) => {
                &&& self.id@.len() > 0
                &&& all_dec_digits(self.id@)
                &&& dec_seq_value(self.id@) == info.id as int
                &&& spec_parse_ip(self.ip@) == Some(info.address)
                &&& self.port <= u16::MAX as u32
                &&& info.port == self.port as u16
            },
            Err(ConversionError::ParseIntError(IntParseError::Empty)) => self.id@.len() == 0,
            Err(ConversionError::ParseIntError(IntParseError::InvalidDigit)) => self.id@.len() > 0
                && !all_dec_digits(self.id@),
            Err(ConversionError::ParseIntError(IntParseError::Overflow)) => all_dec_digits(
                self.id@,
            ) && dec_seq_value(self.id@) > u64::MAX,
            Err(ConversionError::AddrParseError) => spec_parse_ip(self.ip@) is None,
            Err(ConversionError::ConversionFailed) => spec_parse_ip(self.ip@) is Some && self.port
                > u16::MAX as u32,
        }
    }

    fn try_to_domain(&self) -> (r: Result<NodeInfo, ConversionError>) {
        let id = match parse_u64_dec(self.id.as_str()) {
            Ok(v) => v,
            Err(e) => {
                return Err(ConversionError::ParseIntError(e));
            },
        };
        let address = match parse_ip(self.ip.as_str()) {
            Some(a) => a,
            None => {
                return Err(ConversionError::AddrParseError);
            },
        };
        if self.port > u16::MAX as u32 {
            return Err(ConversionError::ConversionFailed);
        }
        Ok(NodeInfo { id, address, port: self.port as u16 })
    }
}

/// Round trip: reading back the wire form of any peer record restores it
/// exactly.
pub proof fn lemma_node_info_round_trip(info: NodeInfo, msg: NodeInfoMsg)
    requires
        info.proto_matches(&msg),
    ensures
        msg.try_domain_matches(&Ok::<NodeInfo, ConversionError>(info)),
{
    lemma_u64_dec_round_trip(info.id as nat);
    lemma_ip_text_round_trip(info.address);
}

} // verus!
