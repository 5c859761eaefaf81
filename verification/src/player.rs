//! The player shown in the video.

use vstd::prelude::*;

use crate::config::RenderConfig;
use crate::ieee::Single;

verus! {

/// The player shown in the video.
#[derive(Debug)]
pub struct BasicPlayer {
    /// The avatar, as the bytes of an image file.
    pub avatar: Option<Vec<u8>>,
    pub id: i32,
    pub rks: Single,
}

/// The avatar file could not be read, for this cause.
#[derive(Debug)]
pub struct LoadAvatarError<E> {
    pub cause: E,
}

impl<E> LoadAvatarError<E> {
    /// The key of the message that stands before the cause.
    pub fn message(&self) -> (key: &'static str)
        ensures
            key@ == "load-avatar-failed"@,
    {
        "load-avatar-failed"
    }
}

/// Makes the player. `avatar` is what came of reading the avatar file of the settings, which may
/// have none. A file that cannot be read is refused, with the error of reading it.
pub fn build_player<E>(config: &RenderConfig, avatar: Option<Result<Vec<u8>, E>>) -> (player:
    Result<BasicPlayer, LoadAvatarError<E>>)
    requires
        config.player_avatar is Some ==> avatar is Some,
    ensures
        player == (if config.player_avatar is None {
            Ok::<BasicPlayer, LoadAvatarError<E>>(
                BasicPlayer { avatar: None, id: 0, rks: config.player_rks },
            )
        } else {
            match avatar->0 {
                Ok(bytes) => Ok::<BasicPlayer, LoadAvatarError<E>>(
                    BasicPlayer { avatar: Some(bytes), id: 0, rks: config.player_rks },
                ),
                Err(cause) => Err::<BasicPlayer, LoadAvatarError<E>>(LoadAvatarError { cause }),
            }
        }),
{
    let avatar = match &config.player_avatar {
        Some(_) => match avatar.unwrap() {
            Ok(bytes) => Some(bytes),
            Err(cause) => {
                return Err(LoadAvatarError { cause });
            },
        },
        None => None,
    };
    Ok(BasicPlayer { avatar, id: 0, rks: config.player_rks })
}

} // verus!
