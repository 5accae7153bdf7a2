//! Public limits.

use vstd::prelude::*;

use crate::domain::error::{report, ErrorCategory, ErrorCode, ErrorReport, Recoverability};
use crate::macos::configuration::{
    configuration_rejection, default_configuration, ChannelConfiguration,
};

verus! {

/// The category of a failure of the public boundary.
pub open spec fn facade_category(code: ErrorCode) -> ErrorCategory {
    match code {
        ErrorCode::Unsupported => ErrorCategory::Unsupported,
        ErrorCode::Closed => ErrorCategory::Closed,
        _ => ErrorCategory::Configuration,
    }
}

/// The report of a failure of the public boundary.
pub open spec fn facade_report(code: ErrorCode, operation: &'static str) -> ErrorReport {
    report(facade_category(code), code, Recoverability::Terminal, operation)
}

pub(crate) fn facade_error(code: ErrorCode, operation: &'static str) -> (created: ErrorReport)
    ensures
        created == facade_report(code, operation),
{
    let category = match code {
        ErrorCode::Unsupported => ErrorCategory::Unsupported,
        ErrorCode::Closed => ErrorCategory::Closed,
        _ => ErrorCategory::Configuration,
    };
    ErrorReport::new(category, code, Recoverability::Terminal, operation)
}

/// Provider-neutral production configuration.
#[derive(Clone, Copy, Debug, PartialEq, Eq, Structural)]
pub struct Configuration {
    /// Bytes in each unidirectional ring.
    pub channel_capacity: u32,
    /// Largest record payload before fragmentation.
    pub maximum_inline_message: u32,
    /// Largest logical application message.
    pub maximum_message: u32,
    /// Writable recovery low watermark.
    pub low_watermark: u32,
    /// Backpressure high watermark.
    pub high_watermark: u32,
    /// Selected protocol major version.
    pub protocol: u16,
}

/// The limits of the channels.
pub open spec fn channel_of(configuration: Configuration) -> ChannelConfiguration {
    ChannelConfiguration {
        capacity: configuration.channel_capacity,
        maximum_inline_message: configuration.maximum_inline_message,
        maximum_message: configuration.maximum_message,
        low_watermark: configuration.low_watermark,
        high_watermark: configuration.high_watermark,
    }
}

/// Why a public configuration is not accepted, if it is not.
pub open spec fn public_rejection(configuration: Configuration) -> Option<ErrorReport> {
    if configuration.protocol == 0 || configuration.protocol > u8::MAX {
        Some(facade_report(ErrorCode::InvalidRange, "public protocol version"))
    } else {
        configuration_rejection(channel_of(configuration))
    }
}

impl Default for Configuration {
    fn default() -> (configuration: Self)
        ensures
            channel_of(configuration) == default_configuration(),
            configuration.protocol == 1,
    {
        let channel = ChannelConfiguration::default();
        Configuration {
            channel_capacity: channel.capacity,
            maximum_inline_message: channel.maximum_inline_message,
            maximum_message: channel.maximum_message,
            low_watermark: channel.low_watermark,
            high_watermark: channel.high_watermark,
            protocol: 1,
        }
    }
}

impl Configuration {
    /// Validates public limits without allocating provider resources.
    ///
    /// `InvalidRange` is returned for inconsistent limits or a zero protocol.
    pub fn validate(self) -> (validated: Result<Self, ErrorReport>)
        ensures
            validated == match public_rejection(self) {
                Some(error) => Err::<Configuration, ErrorReport>(error),
                None => Ok(self),
            },
    {
        if self.protocol == 0 || self.protocol > u8::MAX as u16 {
            return Err(facade_error(ErrorCode::InvalidRange, "public protocol version"));
        }
        let _channel = self.channel_configuration().validate()?;
        Ok(self)
    }

    /// Limits of the channels.
    pub fn channel_configuration(self) -> (channel: ChannelConfiguration)
        ensures
            channel == channel_of(self),
    {
        ChannelConfiguration {
            capacity: self.channel_capacity,
            maximum_inline_message: self.maximum_inline_message,
            maximum_message: self.maximum_message,
            low_watermark: self.low_watermark,
            high_watermark: self.high_watermark,
        }
    }
}

/// A configuration is accepted as it stands exactly where its protocol is a byte above zero and
/// its channels accept their limits, and its channels have exactly its limits.
pub proof fn law_configurations_are_accepted_as_they_stand(
    configuration: Configuration,
    validated: Result<Configuration, ErrorReport>,
    channel: ChannelConfiguration,
)
    requires
        call_ensures(Configuration::validate, (configuration,), validated),
        call_ensures(Configuration::channel_configuration, (configuration,), channel),
    ensures
        validated is Ok <==> 1 <= configuration.protocol <= 255 && configuration_rejection(
            channel,
        ) is None,
        validated matches Ok(kept) ==> kept == configuration,
        channel.capacity == configuration.channel_capacity,
        channel.maximum_inline_message == configuration.maximum_inline_message,
        channel.maximum_message == configuration.maximum_message,
        channel.low_watermark == configuration.low_watermark,
        channel.high_watermark == configuration.high_watermark,
{
}

/// A failure of the public boundary keeps its code, is terminal, and is classed by whether
/// something is not supported, closed or wrongly configured.
pub proof fn law_boundary_failures_are_terminal(code: ErrorCode, operation: &'static str)
    ensures
        facade_report(code, operation).code == code,
        facade_report(code, operation).recoverability is Terminal,
        facade_report(code, operation).category is Unsupported <==> code is Unsupported,
        facade_report(code, operation).category is Closed <==> code is Closed,
        facade_report(code, operation).category is Configuration <==> !(code is Unsupported
            || code is Closed),
{
}

/// A failure of the public interface keeps its code and is final; what is not supported and what is
/// closed are told apart from a wrong configuration.
pub proof fn law_public_failures_have_their_class(code: ErrorCode, operation: &'static str)
    ensures
        facade_report(code, operation).code == code,
        facade_report(code, operation).context == operation,
        facade_report(code, operation).category is Unsupported <==> code is Unsupported,
        facade_report(code, operation).category is Closed <==> code is Closed,
        facade_report(code, operation).category is Configuration <==> !(code is Unsupported)
            && !(code is Closed),
        facade_report(code, operation).recoverability is Terminal,
{
}

/// A public version is one from 1 to 255; any other is refused as a range.
pub proof fn law_public_versions_are_numbers_of_a_byte(configuration: Configuration)
    ensures
        public_rejection(configuration) is None ==> 1 <= configuration.protocol <= 255,
        !(1 <= configuration.protocol <= 255) ==> (public_rejection(configuration) matches Some(
            error,
        ) && error.code is InvalidRange && error.recoverability is Terminal),
{
}

} // verus!
