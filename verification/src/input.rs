//! What a key press does to the game.

use vstd::prelude::*;

verus! {

/// The keys the game reacts to.
#[derive(Debug, Clone, Copy, PartialEq, Eq, Structural)]
pub enum Key {
    Escape,
    C,
    Other,
}

/// The game's state after a key press, and whether the game should end.
#[derive(Debug, Clone, Copy, PartialEq, Eq, Structural)]
pub struct KeyResponse {
    pub cpu_rendering_enabled: bool,
    pub quit: bool,
}

/// Escape ends the game; C switches between CPU and GPU rendering.
pub open spec fn key_response(cpu_rendering_enabled: bool, key: Key) -> KeyResponse {
    KeyResponse {
        cpu_rendering_enabled: if key == Key::C {
            !cpu_rendering_enabled
        } else {
            cpu_rendering_enabled
        },
        quit: key == Key::Escape,
    }
}

/// Reacts to a key press: Escape ends the game, C switches between CPU and GPU
/// rendering, every other key changes nothing.
pub fn key_down(cpu_rendering_enabled: bool, key: Key) -> (response: KeyResponse)
    ensures
        response == key_response(cpu_rendering_enabled, key),
        key == Key::C ==> response.cpu_rendering_enabled == !cpu_rendering_enabled,
        key != Key::C ==> response.cpu_rendering_enabled == cpu_rendering_enabled,
        response.quit <==> key == Key::Escape,
{
    let quit = key == Key::Escape;
    let mut cpu = cpu_rendering_enabled;
    if key == Key::C {
        cpu = !cpu;
    }
    KeyResponse { cpu_rendering_enabled: cpu, quit: quit }
}

/// Pressing C twice brings back the rendering mode one started in, and only
/// Escape ends the game.
pub proof fn lemma_c_twice_restores(cpu_rendering_enabled: bool, key: Key)
    ensures
        key_response(
            key_response(cpu_rendering_enabled, Key::C).cpu_rendering_enabled,
            Key::C,
        ).cpu_rendering_enabled == cpu_rendering_enabled,
        key_response(cpu_rendering_enabled, key).quit <==> key == Key::Escape,
{
}

/// Only C changes the rendering mode: it flips it, and every other key,
/// Escape included, leaves the mode as it was.
pub proof fn lemma_only_c_changes_mode(cpu_rendering_enabled: bool, key: Key)
    ensures
        key != Key::C ==> key_response(cpu_rendering_enabled, key).cpu_rendering_enabled
            == cpu_rendering_enabled,
        key == Key::C ==> key_response(cpu_rendering_enabled, key).cpu_rendering_enabled
            != cpu_rendering_enabled,
{
}

} // verus!
