use vstd::prelude::*;

verus! {

/// A template as listed for a user. Identifiers are the 128-bit value of a UUID.
pub struct TemplateOut {
    pub id: u128,
    pub title: String,
    pub field_amount: i64,
    pub player_amount: i64,
    pub owned: bool,
    pub approved: bool,
    pub access_code: Option<String>,
}

/// A new template: its title and the captions of its fields.
pub struct TemplateIn {
    pub title: String,
    pub fields: Vec<String>,
}

/// A game as shown to one of its players.
pub struct GameOut {
    pub id: u128,
    pub open: bool,
    pub continued: bool,
    pub access_code: String,
    pub fields: Vec<Vec<FieldOut>>,
    pub players: Vec<PlayerOut>,
    pub username: String,
}

/// One cell of a player's board.
pub struct FieldOut {
    pub id: u128,
    pub text: String,
    pub position: u32,
    pub checked: bool,
    pub bingo: bool,
}

/// One player of a game, with the checked flags of its board in position order.
pub struct PlayerOut {
    pub user_id: u128,
    pub username: String,
    pub bingos: i32,
    pub hits: Vec<bool>,
    pub is_me: bool,
}

/// A message pushed to a connected client.
pub enum MessageOut {
    Game { id: u128, open: bool, access_code: String },
    Fields(Vec<Vec<FieldOut>>),
    Players(Vec<PlayerOut>),
}

/// A new display name for the requesting player.
pub struct UsernameIn {
    pub username: String,
}

/// Payload of a change-feed event: the game whose fields or players changed.
pub struct PgGameUpdateNotification {
    pub game_id: u128,
}

} // verus!
