use imgfloat::env::EnvVar;
use imgfloat::irc::{classify_line, imgfloat_command_url, IrcMessage};
use imgfloat::records::{ChannelAdmin, UnownedAsset, UnownedUserSettings, User, UserFacingAsset};
use imgfloat::twitch::{
    AuthCallbackQuery, LoginRedirect, TwitchCredentials, TwitchHttpAuthenticator, TwitchUser,
};

fn credentials() -> TwitchCredentials {
    TwitchCredentials {
        client_id: "cid".to_string(),
        client_secret: "SECRET-REDACTED".to_string(),
        redirect_uri: "http://localhost/callback".to_string(),
    }
}

#[test]
fn env_var_default_applies_only_when_absent() {
    let set = EnvVar(Some("value".to_string()));
    assert_eq!(set.with_default_value("fallback".to_string()).unwrap(), "value");
    let unset: EnvVar<String> = EnvVar(None);
    assert_eq!(unset.with_default_value("fallback".to_string()).unwrap(), "fallback");
}

#[test]
fn env_var_rejects_empty_values() {
    assert!(EnvVar(Some("".to_string())).ensure_non_empty().0.is_none());
    assert_eq!(EnvVar(Some("x".to_string())).ensure_non_empty().0.as_deref(), Some("x"));
}

#[test]
fn env_var_parses_through_from_str() {
    let port = EnvVar(Some("8080".to_string()));
    assert_eq!(port.parse::<u16>().0, Some(8080));
    let bad = EnvVar(Some("eighty".to_string()));
    assert!(bad.parse::<u16>().0.is_none());
    assert!(bad.ensure_parsable::<u16>().0.is_none());
    let kept = EnvVar(Some("8080".to_string())).ensure_parsable::<u16>();
    assert_eq!(kept.0.as_deref(), Some("8080"));
}

#[test]
fn auth_url_has_the_exact_shape() {
    assert_eq!(
        credentials().into_auth_url("user:read:email"),
        "https://id.twitch.tv/oauth2/authorize?client_id=cid&redirect_uri=http://localhost/callback&response_type=code&scope=user:read:email"
    );
}

#[test]
fn authenticator_builds_urls_from_its_endpoint() {
    let auth = TwitchHttpAuthenticator::new(
        "http://id.example".to_string(),
        "http://helix.example".to_string(),
        credentials(),
    );
    assert_eq!(
        auth.create_auth_url("chat:read"),
        "http://id.example/authorize?client_id=cid&redirect_uri=http://localhost/callback&response_type=code&scope=chat:read"
    );
}

#[test]
fn login_redirect_targets_reader_page_or_login() {
    let user = TwitchUser { login: "streamer".to_string() };
    let known = LoginRedirect::new(Some(&user), &credentials());
    assert_eq!(known.0, "/read.html#streamer");
    let anonymous = LoginRedirect::new(None, &credentials());
    assert_eq!(anonymous.0, credentials().into_auth_url("user:read:email"));
}

#[test]
fn callback_query_splits_into_success_and_failure() {
    let q = AuthCallbackQuery {
        code: Some("abc".to_string()),
        error: None,
        error_description: None,
    };
    assert_eq!(q.as_success().code, "abc");
    let q = AuthCallbackQuery {
        code: None,
        error: Some("access_denied".to_string()),
        error_description: Some("user refused".to_string()),
    };
    let failure = q.as_failure();
    assert_eq!(failure.error, "access_denied");
    assert_eq!(failure.error_description, "user refused");
}

#[test]
fn irc_ping_is_classified_with_colons_stripped() {
    let m = classify_line("PING :tmi.twitch.tv".to_string());
    assert_eq!(m, IrcMessage::Ping("tmi.twitch.tv".to_string()));
}

#[test]
fn irc_numeric_is_split_into_fields() {
    let m = classify_line(":tmi.twitch.tv 001 streamer :Welcome, GLHF!".to_string());
    assert_eq!(
        m,
        IrcMessage::Numeric {
            code: "001".to_string(),
            user: "streamer".to_string(),
            info: ":Welcome, GLHF!".to_string(),
        }
    );
}

#[test]
fn irc_names_list_and_end_are_recognized() {
    let m = classify_line(":x.tv 353 me =#chan :alice bob".to_string());
    assert_eq!(m, IrcMessage::NamesList("alice bob".to_string()));
    // the names-list shape wants the channel right after the equals sign;
    // anything else falls through to the later patterns and ends unknown
    let spaced = ":x.tv 353 me = #chan :alice bob".to_string();
    assert_eq!(classify_line(spaced.clone()), IrcMessage::Unknown(spaced));
    let m = classify_line(":x.tv 366 me #chan :End of /NAMES list".to_string());
    assert_eq!(m, IrcMessage::EndOfNames);
}

#[test]
fn irc_privmsg_and_join_carry_the_nick() {
    let m = classify_line(":nick!nick@nick.tmi.twitch.tv PRIVMSG #chan :hello there".to_string());
    assert_eq!(
        m,
        IrcMessage::PrivMsg { username: "nick".to_string(), message: "hello there".to_string() }
    );
    let m = classify_line(":nick!nick@nick.tmi.twitch.tv JOIN #chan".to_string());
    assert_eq!(m, IrcMessage::Join("nick".to_string()));
}

#[test]
fn irc_anything_else_is_unknown() {
    let line = "gibberish with no shape".to_string();
    assert_eq!(classify_line(line.clone()), IrcMessage::Unknown(line));
}

#[test]
fn command_url_is_trimmed_out_of_the_message() {
    assert_eq!(
        imgfloat_command_url("!imgfloat  http://x/i.png \u{e0000}\u{e0000}"),
        Some("http://x/i.png".to_string())
    );
    assert_eq!(imgfloat_command_url("!imgfloat http://x/i.png"), Some("http://x/i.png".to_string()));
    assert_eq!(imgfloat_command_url("hello"), None);
    assert_eq!(imgfloat_command_url("!imgfloat"), None);
}

#[test]
fn records_bind_owners_and_defaults() {
    let owner = User::new("streamer");
    let settings = UnownedUserSettings::default();
    assert_eq!(settings.background_opacity, 40);
    assert_eq!(settings.fps_target, 60);
    let owned = settings.with_owner(&owner);
    assert_eq!(owned.username, "streamer");
    assert_eq!(owned.background_opacity, 40);
    assert_eq!(owned.fps_target, 60);

    let admin = ChannelAdmin::new(&User::new("mod"), &owner);
    assert_eq!(admin.username, "mod");
    assert_eq!(admin.broadcaster_username, "streamer");

    let upload = UnownedAsset {
        local_filename: "abc.png".to_string(),
        original_filename: "cat.png".to_string(),
        checksum: "deadbeef".to_string(),
        content_type: "image/png".to_string(),
    };
    let asset = upload.with_ownership("streamer".to_string());
    assert_eq!(asset.broadcaster_username, "streamer");
    let facing = UserFacingAsset::from_asset(asset);
    assert_eq!(facing.filename, "abc.png");
    assert_eq!(facing.content_type, "image/png");
}

#[test]
fn twitch_user_maps_to_a_user_record() {
    let user = User::from_twitch(TwitchUser { login: "streamer".to_string() });
    assert_eq!(user.username, "streamer");
}
