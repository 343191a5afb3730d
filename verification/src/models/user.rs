//! Users and the profile a viewer sees of them.

use vstd::prelude::*;
use crate::auth::{claims_of, hs256_token, Auth, AuthModel};
use crate::config::TOKEN_DAYS;
use crate::password::PasswordHash;
use crate::text::clone_opt_text;
use crate::time::Timestamp;

verus! {

/// A registered user as stored.
pub struct User {
    pub id: i32,
    pub username: String,
    pub email: String,
    pub bio: Option<String>,
    pub image: Option<String>,
    pub hash: PasswordHash,
}

/// Mathematical value of a [`User`].
pub ghost struct UserModel {
    pub id: i32,
    pub username: Seq<char>,
    pub email: Seq<char>,
    pub bio: Option<Seq<char>>,
    pub image: Option<Seq<char>>,
    pub hash: Seq<char>,
}

impl View for User {
    type V = UserModel;

    open spec fn view(&self) -> UserModel {
        UserModel {
            id: self.id,
            username: self.username@,
            email: self.email@,
            bio: self.bio.deep_view(),
            image: self.image.deep_view(),
            hash: self.hash@,
        }
    }
}

impl Clone for User {
    fn clone(&self) -> (r: Self)
        ensures
            r@ == self@,
    {
        User {
            id: self.id,
            username: self.username.clone(),
            email: self.email.clone(),
            bio: clone_opt_text(&self.bio),
            image: clone_opt_text(&self.image),
            hash: self.hash.clone(),
        }
    }
}

/// What a viewer sees of a user.
pub struct Profile {
    pub username: String,
    pub bio: Option<String>,
    pub image: Option<String>,
    pub following: bool,
}

/// Mathematical value of a [`Profile`].
pub ghost struct ProfileModel {
    pub username: Seq<char>,
    pub bio: Option<Seq<char>>,
    pub image: Option<Seq<char>>,
    pub following: bool,
}

impl View for Profile {
    type V = ProfileModel;

    open spec fn view(&self) -> ProfileModel {
        ProfileModel {
            username: self.username@,
            bio: self.bio.deep_view(),
            image: self.image.deep_view(),
            following: self.following,
        }
    }
}

/// The profile of `user` with the given `following` flag.
pub open spec fn profile_of(user: UserModel, following: bool) -> ProfileModel {
    ProfileModel { username: user.username, bio: user.bio, image: user.image, following }
}

/// What a user sees of their own account, with a fresh session token.
pub struct UserAuth<'a> {
    pub username: &'a str,
    pub email: &'a str,
    pub bio: Option<&'a str>,
    pub image: Option<&'a str>,
    pub token: String,
}

/// Mathematical value of a [`UserAuth`].
pub ghost struct UserAuthModel {
    pub username: Seq<char>,
    pub email: Seq<char>,
    pub bio: Option<Seq<char>>,
    pub image: Option<Seq<char>>,
    pub token: Seq<char>,
}

impl<'a> View for UserAuth<'a> {
    type V = UserAuthModel;

    open spec fn view(&self) -> UserAuthModel {
        UserAuthModel {
            username: self.username@,
            email: self.email@,
            bio: self.bio.deep_view(),
            image: self.image.deep_view(),
            token: self.token@,
        }
    }
}

/// Milliseconds for which a token stays valid.
pub open spec fn token_lifetime() -> int {
    TOKEN_DAYS * 86_400_000
}

/// When a token issued at `now` expires, in seconds since the Unix epoch.
pub open spec fn token_expiry(now: int) -> int {
    (now + token_lifetime()) / 1000
}

/// The token that a user gets at the instant `now` under `secret`, if one can be issued:
/// the expiry must be an instant in range and the secret a key.
pub open spec fn token_for(user: UserModel, secret: Seq<u8>, now: int) -> Option<Seq<char>> {
    if Timestamp::valid_millis(now + token_lifetime()) {
        let claims = claims_of(
            AuthModel { exp: token_expiry(now), id: user.id as int, username: user.username },
        );
        hs256_token(claims.0, claims.1, secret)
    } else {
        None
    }
}

/// The account view of `user` with the token `token`.
pub open spec fn user_auth_of(user: UserModel, token: Seq<char>) -> UserAuthModel {
    UserAuthModel {
        username: user.username,
        email: user.email,
        bio: user.bio,
        image: user.image,
        token,
    }
}

/// The text inside an optional text.
pub fn opt_as_str(text: &Option<String>) -> (r: Option<&str>)
    ensures
        r.deep_view() == text.deep_view(),
{
    match text {
        Some(s) => Some(s.as_str()),
        None => None,
    }
}

impl User {
    /// The account view with a token issued at the instant `now`, valid for
    /// [`TOKEN_DAYS`] days. `None` where no token can be issued.
    pub fn to_user_auth_at(&self, secret: &[u8], now: Timestamp) -> (r: Option<UserAuth>)
        ensures
            r is Some <==> token_for(self@, secret@, now@) is Some,
            r matches Some(auth) ==> auth@ == user_auth_of(
                self@,
                token_for(self@, secret@, now@)->0,
            ),
    {
        let exp = match now.plus_days(TOKEN_DAYS) {
            Some(exp) => exp,
            None => {
                return None;
            },
        };
        let claims = Auth { id: self.id, username: self.username.clone(), exp: exp.seconds() };
        match claims.token(secret) {
            Some(token) => Some(
                UserAuth {
                    username: self.username.as_str(),
                    email: self.email.as_str(),
                    bio: opt_as_str(&self.bio),
                    image: opt_as_str(&self.image),
                    token,
                },
            ),
            None => None,
        }
    }

    /// The account view with a token issued now, valid for [`TOKEN_DAYS`] days. `None`
    /// where no token can be issued: the secret is no key, or the clock reads out of
    /// range.
    pub fn to_user_auth(&self, secret: &[u8]) -> (r: Option<UserAuth>)
        ensures
            r matches Some(auth) ==> exists|now: int|
                #![trigger token_for(self@, secret@, now)]
                Timestamp::valid_millis(now) && token_for(self@, secret@, now) is Some && auth@
                    == user_auth_of(self@, token_for(self@, secret@, now)->0),
    {
        match Timestamp::now() {
            Some(now) => {
                let r = self.to_user_auth_at(secret, now);
                proof {
                    if r is Some {
                        assert(Timestamp::valid_millis(now@));
                        assert(token_for(self@, secret@, now@) is Some);
                    }
                }
                r
            },
            None => None,
        }
    }

    /// Turns the user into the profile shown to a viewer who follows them or not.
    pub fn to_profile(self, following: bool) -> (p: Profile)
        ensures
            p@ == profile_of(self@, following),
    {
        Profile { username: self.username, bio: self.bio, image: self.image, following }
    }
}

} // verus!
