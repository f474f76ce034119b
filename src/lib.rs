pub mod combat;
pub mod game_state;
pub mod skills;
pub mod turn;
pub mod units;

pub use combat::{calculate_damage, CombatSystem, SkillCast};
pub use game_state::{player_name, ChannelMessage, GameError, GameState, Mode, PlayersSystem, TickEvents};
pub use skills::{cast_skill, Fireball, MultiShot, ShieldBash, SkillExecutor, WhirlwindSlash};
pub use turn::{advance_phase, Player, TurnManager, TurnPhase, TurnState, TurnSystem};
pub use units::{
    distance_squared, is_in_range, Chess, ChessType, CombatStats, Effect, EffectType, Position,
    Skill, SkillType, StatusEffects, Unit,
};
