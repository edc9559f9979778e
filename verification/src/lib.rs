pub mod bullet;
pub mod game;
pub mod geom;
pub mod mouse;
pub mod player;
pub mod rng;
pub mod room;

pub use bullet::Bullet;
pub use game::GameState;
pub use mouse::Mouse;
pub use player::Player;
pub use room::Room;
