//! How large incoming messages may be.

use tungstenite::protocol::WebSocketConfig;
use vstd::prelude::*;

verus! {

/// `tungstenite::protocol::WebSocketConfig`, the settings of a WebSocket.
#[verifier::external_type_specification]
pub struct ExWebSocketConfig(WebSocketConfig);

/// The settings that hold both messages and frames to a size, and are
/// otherwise the default ones.
pub open spec fn limited_to(config: WebSocketConfig, size: usize) -> bool {
    &&& config.max_message_size == Some(size)
    &&& config.max_frame_size == Some(size)
    &&& config.read_buffer_size == 128 * 1024
    &&& config.write_buffer_size == 128 * 1024
    &&& config.max_write_buffer_size == usize::MAX
    &&& !config.accept_unmasked_frames
}

/// `WebSocketConfig::default`: the settings of a WebSocket unless it is told
/// otherwise. Messages may have 64 MiB, and frames 16 MiB.
pub assume_specification[ <WebSocketConfig as std::default::Default>::default ]() -> (config:
    WebSocketConfig)
    ensures
        config.max_message_size == Some(0x400_0000usize),
        config.max_frame_size == Some(0x100_0000usize),
        config.read_buffer_size == 128 * 1024,
        config.write_buffer_size == 128 * 1024,
        config.max_write_buffer_size == usize::MAX,
        !config.accept_unmasked_frames,
;

/// `WebSocketConfig::max_message_size`: sets the field of its name, and no
/// other.
pub assume_specification[ WebSocketConfig::max_message_size ](
    config: WebSocketConfig,
    max_message_size: Option<usize>,
) -> (limited: WebSocketConfig)
    ensures
        limited.max_message_size == max_message_size,
        limited.max_frame_size == config.max_frame_size,
        limited.read_buffer_size == config.read_buffer_size,
        limited.write_buffer_size == config.write_buffer_size,
        limited.max_write_buffer_size == config.max_write_buffer_size,
        limited.accept_unmasked_frames == config.accept_unmasked_frames,
;

/// `WebSocketConfig::max_frame_size`: sets the field of its name, and no other.
pub assume_specification[ WebSocketConfig::max_frame_size ](
    config: WebSocketConfig,
    max_frame_size: Option<usize>,
) -> (limited: WebSocketConfig)
    ensures
        limited.max_message_size == config.max_message_size,
        limited.max_frame_size == max_frame_size,
        limited.read_buffer_size == config.read_buffer_size,
        limited.write_buffer_size == config.write_buffer_size,
        limited.max_write_buffer_size == config.max_write_buffer_size,
        limited.accept_unmasked_frames == config.accept_unmasked_frames,
;

/// The default settings, with both messages and frames held to a size.
pub(crate) fn config_limited_to(size: usize) -> (config: WebSocketConfig)
    ensures
        limited_to(config, size),
{
    WebSocketConfig::default().max_message_size(Some(size)).max_frame_size(Some(size))
}

} // verus!
