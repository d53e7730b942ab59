use crate::bonus::{Bonus, BonusType};
use crate::collision::{
    all_bonus_wf,
    falls_on,
    find_kill,
    kill_of,
    killed,
    labels_for,
    left_over,
    pick_up,
    score_after,
    picked,
    picks,
    random_position,
    kill_at,
    two_players,
};
use crate::config::SimConfig;
use crate::factory::Factory;
use crate::particles::{
    all_blood_wf,
    all_text_wf,
    blood_after,
    random_blood_particle,
    texts_after,
    update_blood,
    update_texts,
    Blood,
    BonusText,
    BLOOD_COUNT,
};
use crate::player::{lemma_resting_player_stays, resting, Controls, Player, PlayerType};
use crate::geometry::Vec2;
use vstd::prelude::*;

verus! {

/// Which screen the game shows; only `Game` runs the simulation.
#[derive(Clone, Copy, Debug, PartialEq, Eq, Structural)]
pub enum Scene {
    Intro,
    Credits,
    Game,
}

/// The scene after key `key` goes down: from the intro or the credits the
/// confirm key starts the game; the credits key shows the credits from the
/// intro and goes back to the intro from the credits; the game scene is
/// never left.
pub open spec fn next_scene(scene: Scene, key: u32, confirm: u32, credits: u32) -> Scene {
    match scene {
        Scene::Game => Scene::Game,
        Scene::Intro => if key == confirm {
            Scene::Game
        } else if key == credits {
            Scene::Credits
        } else {
            scene
        },
        Scene::Credits => if key == confirm {
            Scene::Game
        } else if key == credits {
            Scene::Intro
        } else {
            scene
        },
    }
}

/// What a tick did that sound, text and particles must show.
#[derive(Clone, Debug)]
pub struct TickEvents {
    /// Players (by index) who started a jump.
    pub jumps: Vec<usize>,
    /// Killer and victim of a kill.
    pub kill: Option<(usize, usize)>,
    /// Bonuses picked up, by player index and type, in order.
    pub pickups: Vec<(usize, BonusType)>,
}

/// The whole simulation state.
#[derive(Clone, Debug)]
pub struct Game {
    /// Always two players, `Player1` first.
    pub players: Vec<Player>,
    pub blood_particles: Vec<Blood>,
    pub scene: Scene,
    pub bonus_factory: Factory,
    pub bonuses: Vec<Bonus>,
    pub bonuses_text: Vec<BonusText>,
    /// Key that starts the game from the menus.
    pub confirm_key: u32,
    /// Key that shows the credits from the menus.
    pub credits_key: u32,
}

/// `new` is `old` with `BLOOD_COUNT` particles sprayed from `at`.
pub open spec fn sprayed(old: Seq<Blood>, new: Seq<Blood>, at: Vec2) -> bool {
    &&& new.len() == old.len() + BLOOD_COUNT
    &&& new.subrange(0, old.len() as int) == old
    &&& forall|j: int|
        old.len() <= j < new.len() ==> {
            let b = #[trigger] new[j];
            &&& b.position == at
            &&& b.size == (Vec2 { x: 25_000, y: 25_000 })
            &&& -10_000 <= b.velocity.x < 10_000
            &&& 0 <= b.velocity.y < 25_000
        }
}

/// Adds the particles of a kill at `at`.
pub fn spray_blood(blood: &mut Vec<Blood>, at: Vec2)
    requires
        all_blood_wf(old(blood)@),
        at.bounded(),
    ensures
        sprayed(old(blood)@, final(blood)@, at),
        all_blood_wf(final(blood)@),
{
    let ghost start = blood@;
    let mut n: usize = 0;
    while n < BLOOD_COUNT
        invariant
            n <= BLOOD_COUNT,
            at.bounded(),
            blood@.len() == start.len() + n,
            blood@.subrange(0, start.len() as int) == start,
            all_blood_wf(blood@),
            forall|j: int|
                start.len() <= j < blood@.len() ==> {
                    let b = #[trigger] blood@[j];
                    &&& b.position == at
                    &&& b.size == (Vec2 { x: 25_000, y: 25_000 })
                    &&& -10_000 <= b.velocity.x < 10_000
                    &&& 0 <= b.velocity.y < 25_000
                },
        decreases BLOOD_COUNT - n,
    {
        let b = random_blood_particle(at);
        let ghost before = blood@;
        blood.push(b);
        assert(blood@.subrange(0, start.len() as int) == before.subrange(0, start.len() as int));
        assert forall|j: int| 0 <= j < blood@.len() implies #[trigger] blood@[j].wf() by {
            if j < before.len() {
                assert(before[j].wf());
            }
        }
        assert forall|j: int| start.len() <= j < blood@.len() implies {
            let b = #[trigger] blood@[j];
            &&& b.position == at
            &&& b.size == (Vec2 { x: 25_000, y: 25_000 })
            &&& -10_000 <= b.velocity.x < 10_000
            &&& 0 <= b.velocity.y < 25_000
        } by {
            if j < before.len() {
                assert(blood@[j] == before[j]);
            }
        }
        n += 1;
    }
}

pub open spec fn bonuses_moved(old: Seq<Bonus>, new: Seq<Bonus>, cfg: SimConfig) -> bool {
    &&& new.len() == old.len()
    &&& forall|j: int| 0 <= j < old.len() ==> #[trigger] new[j] == old[j].next(cfg)
}

/// Moves every bonus by one tick.
pub fn update_bonuses(bonuses: &mut Vec<Bonus>, cfg: &SimConfig)
    requires
        all_bonus_wf(old(bonuses)@),
        cfg.wf(),
    ensures
        bonuses_moved(old(bonuses)@, final(bonuses)@, *cfg),
        all_bonus_wf(final(bonuses)@),
{
    let ghost start = bonuses@;
    let mut j: usize = 0;
    while j < bonuses.len()
        invariant
            cfg.wf(),
            bonuses@.len() == start.len(),
            j <= bonuses@.len(),
            all_bonus_wf(bonuses@),
            forall|k: int| 0 <= k < j ==> #[trigger] bonuses@[k] == start[k].next(*cfg),
            forall|k: int| j <= k < bonuses@.len() ==> #[trigger] bonuses@[k] == start[k],
        decreases start.len() - j,
    {
        let mut b = bonuses[j];
        assert(bonuses@[j as int].wf());
        b.update(cfg);
        let ghost before = bonuses@;
        bonuses.set(j, b);
        assert forall|k: int| 0 <= k < bonuses@.len() implies #[trigger] bonuses@[k].wf() by {
            if k != j {
                assert(before[k].wf());
            }
        }
        j += 1;
    }
}

impl Game {
    pub open spec fn wf(&self) -> bool {
        &&& two_players(self.players@)
        &&& all_blood_wf(self.blood_particles@)
        &&& all_bonus_wf(self.bonuses@)
        &&& all_text_wf(self.bonuses_text@)
        &&& self.bonus_factory.wf()
    }

    /// A new session at the intro screen, with both players at their start
    /// points and nothing else on the field.
    pub fn new(controls1: Controls, controls2: Controls, confirm_key: u32, credits_key: u32) -> (r: Game)
        ensures
            r.wf(),
            r.scene == Scene::Intro,
            r.players@[0].tag == PlayerType::Player1,
            r.players@[0].controls == controls1,
            r.players@[0].score == 0,
            r.players@[0].position == (Vec2 { x: 250_000, y: crate::config::GROUND_Y }),
            r.players@[0].mutations@.len() == 0,
            r.players@[1].tag == PlayerType::Player2,
            r.players@[1].position == (Vec2 { x: -250_000i64, y: crate::config::GROUND_Y }),
            r.players@[1].mutations@.len() == 0,
            r.players@[1].controls == controls2,
            r.players@[1].score == 0,
            r.blood_particles@.len() == 0,
            r.bonuses@.len() == 0,
            r.bonuses_text@.len() == 0,
            r.bonus_factory == Factory::new_spec(),
            r.confirm_key == confirm_key,
            r.credits_key == credits_key,
    {
        let mut players: Vec<Player> = Vec::new();
        players.push(Player::new(controls1, PlayerType::Player1));
        players.push(Player::new(controls2, PlayerType::Player2));
        Game {
            players,
            blood_particles: Vec::new(),
            scene: Scene::Intro,
            bonus_factory: Factory::new(),
            bonuses: Vec::new(),
            bonuses_text: Vec::new(),
            confirm_key,
            credits_key,
        }
    }

    /// A key went down: in the game it steers the players, elsewhere it may
    /// change the scene.
    pub fn key_down(&mut self, key: u32)
        requires
            old(self).wf(),
        ensures
            final(self).wf(),
            final(self).scene == next_scene(old(self).scene, key, old(self).confirm_key, old(self).credits_key),
            old(self).scene == Scene::Game ==> forall|i: int|
                0 <= i < 2 ==> (#[trigger] final(self).players@[i].input_axis, final(self).players@[i].facing)
                    == old(self).players@[i].pressed(key),
            old(self).scene != Scene::Game ==> final(self).players@ == old(self).players@,
            forall|i: int|
                0 <= i < 2 ==> {
                    let p = #[trigger] old(self).players@[i];
                    let q = final(self).players@[i];
                    &&& q.position == p.position
                    &&& q.velocity == p.velocity
                    &&& q.score == p.score
                    &&& q.controls == p.controls
                    &&& q.mutations@ == p.mutations@
                    &&& q.tag == p.tag
                    &&& q.size == p.size
                    &&& q.cbox_size == p.cbox_size
                    &&& q.max_velocity == p.max_velocity
                    &&& q.walk_time == p.walk_time
                },
            final(self).blood_particles@ == old(self).blood_particles@,
            final(self).bonuses@ == old(self).bonuses@,
            final(self).bonuses_text@ == old(self).bonuses_text@,
            final(self).bonus_factory == old(self).bonus_factory,
    {
        if self.scene == Scene::Game {
            self.players[0].press(key);
            self.players[1].press(key);
        } else if key == self.confirm_key {
            self.scene = Scene::Game;
        } else if key == self.credits_key {
            self.scene = if self.scene == Scene::Credits {
                Scene::Intro
            } else {
                Scene::Credits
            };
        }
    }

    /// A key went up: each player whose key it is stops that move.
    pub fn key_up(&mut self, key: u32)
        requires
            old(self).wf(),
        ensures
            final(self).wf(),
            final(self).scene == old(self).scene,
            forall|i: int|
                0 <= i < 2 ==> #[trigger] final(self).players@[i].input_axis
                    == old(self).players@[i].released(key),
            forall|i: int|
                0 <= i < 2 ==> {
                    let p = #[trigger] old(self).players@[i];
                    let q = final(self).players@[i];
                    &&& q.facing == p.facing
                    &&& q.position == p.position
                    &&& q.velocity == p.velocity
                    &&& q.score == p.score
                    &&& q.controls == p.controls
                    &&& q.mutations@ == p.mutations@
                    &&& q.tag == p.tag
                    &&& q.size == p.size
                    &&& q.cbox_size == p.cbox_size
                    &&& q.max_velocity == p.max_velocity
                    &&& q.walk_time == p.walk_time
                },
            final(self).blood_particles@ == old(self).blood_particles@,
            final(self).bonuses@ == old(self).bonuses@,
            final(self).bonuses_text@ == old(self).bonuses_text@,
            final(self).bonus_factory == old(self).bonus_factory,
    {
        self.players[0].release(key);
        self.players[1].release(key);
    }
}

} // verus!

verus! {

/// The jump events of a tick, player 0 first.
pub open spec fn jumps_of(j0: bool, j1: bool) -> Seq<usize> {
    (if j0 { seq![0usize] } else { Seq::empty() }) + (if j1 { seq![1usize] } else { Seq::empty() })
}

/// Pickup events of player `i`, one per bonus picked up.
pub open spec fn pickup_events(i: usize, bs: Seq<Bonus>) -> Seq<(usize, BonusType)> {
    bs.map_values(|b: Bonus| (i, b.tag))
}

/// `h` is `g` after the movement phase of a tick of `cfg`, with `jumps` the
/// players who started a jump: players tick, particles and labels move and
/// expire, the factory moves then runs its spawn scheduler, and every bonus
/// (a new one last) moves.
pub open spec fn advanced(g: Game, h: Game, cfg: SimConfig, jumps: Seq<usize>) -> bool {
    &&& h.players@.len() == 2
    &&& exists|j0: bool, j1: bool|
        {
            &&& g.players@[0].ticked(&h.players@[0], cfg, j0)
            &&& g.players@[1].ticked(&h.players@[1], cfg, j1)
            &&& jumps == jumps_of(j0, j1)
        }
    &&& h.blood_particles@ == blood_after(g.blood_particles@, cfg)
    &&& h.bonuses_text@ == texts_after(g.bonuses_text@, cfg)
    &&& exists|f: Factory, out: Option<Bonus>|
        {
            &&& g.bonus_factory.moved_somehow(f, cfg.dt as int)
            &&& f.spawned(h.bonus_factory, cfg.dt as int, out)
            &&& bonuses_moved(
                match out {
                    Some(b) => g.bonuses@.push(b),
                    None => g.bonuses@,
                },
                h.bonuses@,
                cfg,
            )
        }
    &&& h.scene == g.scene
    &&& h.confirm_key == g.confirm_key
    &&& h.credits_key == g.credits_key
}

/// `h` is `g` after the collision phase, with `kill` and `pickups` its events:
/// a kill between the players (see `kill_of`), then player 0 and then
/// player 1 pick up the bonuses in their reach.
pub open spec fn collided(
    g: Game,
    h: Game,
    cfg: SimConfig,
    kill: Option<(usize, usize)>,
    pickups: Seq<(usize, BonusType)>,
) -> bool {
    let ps = g.players@;
    let bs = g.bonuses@;
    &&& kill == kill_of(ps[0], ps[1])
    &&& h.players@.len() == 2
    &&& exists|mid: Seq<Player>|
        {
            let bs1 = left_over(mid[0], bs);
            &&& match kill {
                Some((k, v)) => {
                    &&& exists|respawn: Vec2|
                        {
                            &&& #[trigger] killed(ps, mid, k as int, v as int, respawn)
                            &&& -cfg.half_width <= respawn.x < cfg.half_width
                            &&& respawn.y == cfg.ground_y
                        }
                    &&& sprayed(g.blood_particles@, h.blood_particles@, ps[v as int].position)
                },
                None => mid == ps && h.blood_particles@ == g.blood_particles@,
            }
            &&& #[trigger] picks(mid[0], h.players@[0], bs)
            &&& picks(mid[1], h.players@[1], bs1)
            &&& h.bonuses@ == left_over(mid[1], bs1)
            &&& h.bonuses_text@ == g.bonuses_text@ + labels_for(picked(mid[0], bs)) + labels_for(picked(mid[1], bs1))
            &&& pickups == pickup_events(0, picked(mid[0], bs)) + pickup_events(1, picked(mid[1], bs1))
        }
    &&& h.bonus_factory == g.bonus_factory
    &&& h.scene == g.scene
    &&& h.confirm_key == g.confirm_key
    &&& h.credits_key == g.credits_key
}

/// Appends `(i, t)` for every type `t` of `tags`.
fn push_events(out: &mut Vec<(usize, BonusType)>, i: usize, tags: &Vec<BonusType>, got: Ghost<Seq<Bonus>>)
    requires
        tags@ == got@.map_values(|b: Bonus| b.tag),
    ensures
        final(out)@ == old(out)@ + pickup_events(i, got@),
{
    let ghost start = out@;
    let mut k: usize = 0;
    while k < tags.len()
        invariant
            k <= tags.len(),
            tags@ == got@.map_values(|b: Bonus| b.tag),
            out@ == start + pickup_events(i, got@.subrange(0, k as int)),
        decreases tags.len() - k,
    {
        out.push((i, tags[k]));
        assert(pickup_events(i, got@.subrange(0, k as int + 1)) == pickup_events(i, got@.subrange(0, k as int)).push((i, tags@[k as int])));
        k += 1;
    }
    assert(got@.subrange(0, tags.len() as int) =~= got@);
}

impl Game {
    /// The movement phase of a tick (see `advanced`).
    pub fn advance(&mut self, cfg: &SimConfig) -> (jumps: Vec<usize>)
        requires
            old(self).wf(),
            cfg.wf(),
        ensures
            final(self).wf(),
            advanced(*old(self), *final(self), *cfg, jumps@),
    {
        let ghost start = *self;
        let mut jumps: Vec<usize> = Vec::new();
        let j0 = self.players[0].tick(cfg);
        if j0 {
            jumps.push(0);
        }
        let j1 = self.players[1].tick(cfg);
        if j1 {
            jumps.push(1);
        }
        assert(jumps@ =~= jumps_of(j0, j1));
        let ghost moved = self.players@;
        assert(start.players@[0].ticked(&moved[0], *cfg, j0));
        assert(start.players@[1].ticked(&moved[1], *cfg, j1));
        update_blood(&mut self.blood_particles, cfg);
        self.bonus_factory.update(cfg.dt);
        let ghost f = self.bonus_factory;
        update_texts(&mut self.bonuses_text, cfg);
        let out = self.bonus_factory.spawn(cfg.dt);
        match out {
            Some(b) => {
                let ghost before = self.bonuses@;
                self.bonuses.push(b);
                assert forall|k: int| 0 <= k < self.bonuses@.len() implies #[trigger] self.bonuses@[k].wf() by {
                    if k < before.len() {
                        assert(before[k].wf());
                    }
                }
            },
            None => {},
        }
        let ghost pre = self.bonuses@;
        assert(pre == match out {
            Some(b) => start.bonuses@.push(b),
            None => start.bonuses@,
        });
        update_bonuses(&mut self.bonuses, cfg);
        assert(self.players@ == moved);
        assert(f.spawned(self.bonus_factory, cfg.dt as int, out));
        assert(start.bonus_factory.moved_somehow(f, cfg.dt as int));
        assert(bonuses_moved(pre, self.bonuses@, *cfg));
        jumps
    }

    /// The collision phase of a tick (see `collided`).
    pub fn resolve_collisions(&mut self, cfg: &SimConfig) -> (r: (Option<(usize, usize)>, Vec<(usize, BonusType)>))
        requires
            old(self).wf(),
            cfg.wf(),
        ensures
            final(self).wf(),
            collided(*old(self), *final(self), *cfg, r.0, r.1@),
    {
        let ghost ps = self.players@;
        let kill = find_kill(&self.players[0], &self.players[1]);
        let ghost mut respawn = Vec2 { x: 0, y: 0 };
        match kill {
            Some((k, v)) => {
                let at = self.players[v].position;
                spray_blood(&mut self.blood_particles, at);
                let spot = random_position(cfg);
                proof {
                    respawn = spot;
                }
                kill_at(&mut self.players, k, v, spot);
            },
            None => {},
        }
        let ghost mid = self.players@;
        let ghost bs = self.bonuses@;
        let mut events: Vec<(usize, BonusType)> = Vec::new();
        let t0 = pick_up(&mut self.players, 0, &mut self.bonuses, &mut self.bonuses_text);
        push_events(&mut events, 0, &t0, Ghost(picked(mid[0], bs)));
        let ghost bs1 = self.bonuses@;
        let ghost p1 = self.players@[1];
        assert(p1 == mid[1]);
        let t1 = pick_up(&mut self.players, 1, &mut self.bonuses, &mut self.bonuses_text);
        push_events(&mut events, 1, &t1, Ghost(picked(mid[1], bs1)));
        proof {
            let h = *self;
            let bs1 = left_over(mid[0], bs);
            assert(picks(mid[0], h.players@[0], bs));
            assert(picks(mid[1], h.players@[1], bs1));
            match kill {
                Some((k, v)) => {
                    assert(killed(ps, mid, k as int, v as int, respawn));
                },
                None => {},
            }
        }
        (kill, events)
    }

    /// One fixed-step tick: nothing happens outside the game scene; in the
    /// game, the movement phase then the collision phase.
    pub fn update(&mut self, cfg: &SimConfig) -> (r: TickEvents)
        requires
            old(self).wf(),
            cfg.wf(),
        ensures
            final(self).wf(),
            old(self).scene != Scene::Game ==> {
                &&& final(self).players@ == old(self).players@
                &&& final(self).blood_particles@ == old(self).blood_particles@
                &&& final(self).bonuses@ == old(self).bonuses@
                &&& final(self).bonuses_text@ == old(self).bonuses_text@
                &&& final(self).bonus_factory == old(self).bonus_factory
                &&& final(self).scene == old(self).scene
                &&& r.jumps@.len() == 0
                &&& r.kill.is_none()
                &&& r.pickups@.len() == 0
            },
            old(self).scene == Scene::Game ==> exists|mid: Game|
                {
                    &&& advanced(*old(self), mid, *cfg, r.jumps@)
                    &&& collided(mid, *final(self), *cfg, r.kill, r.pickups@)
                },
            old(self).scene == Scene::Game ==> tick_step(*old(self), *final(self), *cfg, r.kill),
    {
        if self.scene != Scene::Game {
            return TickEvents { jumps: Vec::new(), kill: None, pickups: Vec::new() };
        }
        let jumps = self.advance(cfg);
        let ghost mid = *self;
        let (kill, pickups) = self.resolve_collisions(cfg);
        let r = TickEvents { jumps, kill, pickups };
        assert(advanced(*old(self), mid, *cfg, r.jumps@));
        assert(collided(mid, *self, *cfg, r.kill, r.pickups@));
        r
    }
}

} // verus!

verus! {

/// `h` follows `g` by one tick of the game scene that reported `kill`.
pub open spec fn tick_step(g: Game, h: Game, cfg: SimConfig, kill: Option<(usize, usize)>) -> bool {
    exists|mid: Game, jumps: Seq<usize>, pickups: Seq<(usize, BonusType)>|
        #![trigger advanced(g, mid, cfg, jumps), collided(mid, h, cfg, kill, pickups)]
        advanced(g, mid, cfg, jumps) && collided(mid, h, cfg, kill, pickups)
}

pub open spec fn both_resting(g: Game, cfg: SimConfig) -> bool {
    g.players@.len() == 2 && resting(g.players@[0], cfg) && resting(g.players@[1], cfg)
}

/// A tick in which both players rest on the ground reports no kill and
/// leaves both resting where they were.
pub proof fn lemma_resting_tick(g: Game, h: Game, cfg: SimConfig, kill: Option<(usize, usize)>)
    requires
        cfg.wf(),
        both_resting(g, cfg),
        tick_step(g, h, cfg, kill),
    ensures
        kill.is_none(),
        both_resting(h, cfg),
        h.players@[0].position == g.players@[0].position,
        h.players@[1].position == g.players@[1].position,
{
    let (mid, jumps, pickups) = choose|mid: Game, jumps: Seq<usize>, pickups: Seq<(usize, BonusType)>|
        #![trigger advanced(g, mid, cfg, jumps), collided(mid, h, cfg, kill, pickups)]
        advanced(g, mid, cfg, jumps) && collided(mid, h, cfg, kill, pickups);
    let (j0, j1) = choose|j0: bool, j1: bool|
        {
            &&& g.players@[0].ticked(&mid.players@[0], cfg, j0)
            &&& g.players@[1].ticked(&mid.players@[1], cfg, j1)
            &&& jumps == jumps_of(j0, j1)
        };
    lemma_resting_player_stays(g.players@[0], mid.players@[0], cfg, j0);
    lemma_resting_player_stays(g.players@[1], mid.players@[1], cfg, j1);
    let ps = mid.players@;
    assert(!falls_on(ps[0], ps[1]) && !falls_on(ps[1], ps[0]));
    assert(kill.is_none());
    let m = choose|m: Seq<Player>|
        {
            let bs1 = left_over(m[0], mid.bonuses@);
            &&& match kill {
                Some((k, v)) => {
                    &&& exists|respawn: Vec2|
                        {
                            &&& #[trigger] killed(ps, m, k as int, v as int, respawn)
                            &&& -cfg.half_width <= respawn.x < cfg.half_width
                            &&& respawn.y == cfg.ground_y
                        }
                    &&& sprayed(mid.blood_particles@, h.blood_particles@, ps[v as int].position)
                },
                None => m == ps && h.blood_particles@ == mid.blood_particles@,
            }
            &&& #[trigger] picks(m[0], h.players@[0], mid.bonuses@)
            &&& picks(m[1], h.players@[1], bs1)
            &&& h.bonuses@ == left_over(m[1], bs1)
            &&& h.bonuses_text@ == mid.bonuses_text@ + labels_for(picked(m[0], mid.bonuses@)) + labels_for(
                picked(m[1], bs1),
            )
            &&& pickups == pickup_events(0, picked(m[0], mid.bonuses@)) + pickup_events(1, picked(m[1], bs1))
        };
    assert(m == ps);
}

/// Players that rest on the ground never kill: over any run of ticks from
/// such a state, no tick reports a kill and both players stay where they
/// were. `gs` are the states and `kills` what each tick reported.
pub proof fn lemma_resting_players_never_kill(gs: Seq<Game>, kills: Seq<Option<(usize, usize)>>, cfg: SimConfig)
    requires
        cfg.wf(),
        gs.len() == kills.len() + 1,
        both_resting(gs[0], cfg),
        forall|i: int| 0 <= i < kills.len() ==> #[trigger] tick_step(gs[i], gs[i + 1], cfg, kills[i]),
    ensures
        forall|i: int| 0 <= i < kills.len() ==> (#[trigger] kills[i]).is_none(),
        both_resting(gs.last(), cfg),
        gs.last().players@[0].position == gs[0].players@[0].position,
        gs.last().players@[1].position == gs[0].players@[1].position,
    decreases kills.len(),
{
    if kills.len() > 0 {
        let n = kills.len() - 1;
        lemma_resting_players_never_kill(gs.drop_last(), kills.drop_last(), cfg);
        assert(gs.drop_last().last() == gs[n]);
        assert(tick_step(gs[n], gs[n + 1], cfg, kills[n]));
        lemma_resting_tick(gs[n], gs[n + 1], cfg, kills[n]);
        assert forall|i: int| 0 <= i < kills.len() implies (#[trigger] kills[i]).is_none() by {
            if i < n {
                assert(kills.drop_last()[i] == kills[i]);
            }
        }
    }
}

} // verus!

verus! {

/// The kill rule over a whole collision phase with no bonus on the field:
/// a kill gives the killer exactly one point, respawns the victim on the
/// ground, leaves the victim's score and sprays `BLOOD_COUNT` particles;
/// without a kill no score, position or particle changes.
pub proof fn lemma_collision_scores(
    g: Game,
    h: Game,
    cfg: SimConfig,
    kill: Option<(usize, usize)>,
    pickups: Seq<(usize, BonusType)>,
)
    requires
        two_players(g.players@),
        g.bonuses@.len() == 0,
        collided(g, h, cfg, kill, pickups),
    ensures
        match kill {
            Some((k, v)) => {
                &&& h.players@[k as int].score == crate::bonus::add_score(g.players@[k as int].score, 1)
                &&& h.players@[v as int].score == g.players@[v as int].score
                &&& h.players@[v as int].position.y == cfg.ground_y
                &&& h.players@[k as int].position == g.players@[k as int].position
                &&& h.blood_particles@.len() == g.blood_particles@.len() + BLOOD_COUNT
            },
            None => {
                &&& h.players@[0].score == g.players@[0].score
                &&& h.players@[1].score == g.players@[1].score
                &&& h.players@[0].position == g.players@[0].position
                &&& h.players@[1].position == g.players@[1].position
                &&& h.blood_particles@ == g.blood_particles@
            },
        },
        pickups.len() == 0,
{
    let ps = g.players@;
    let bs = g.bonuses@;
    let m = choose|m: Seq<Player>|
        {
            let bs1 = left_over(m[0], bs);
            &&& match kill {
                Some((k, v)) => {
                    &&& exists|respawn: Vec2|
                        {
                            &&& #[trigger] killed(ps, m, k as int, v as int, respawn)
                            &&& -cfg.half_width <= respawn.x < cfg.half_width
                            &&& respawn.y == cfg.ground_y
                        }
                    &&& sprayed(g.blood_particles@, h.blood_particles@, ps[v as int].position)
                },
                None => m == ps && h.blood_particles@ == g.blood_particles@,
            }
            &&& #[trigger] picks(m[0], h.players@[0], bs)
            &&& picks(m[1], h.players@[1], bs1)
            &&& h.bonuses@ == left_over(m[1], bs1)
            &&& h.bonuses_text@ == g.bonuses_text@ + labels_for(picked(m[0], bs)) + labels_for(picked(m[1], bs1))
            &&& pickups == pickup_events(0, picked(m[0], bs)) + pickup_events(1, picked(m[1], bs1))
        };
    assert(picked(m[0], bs) == bs);
    assert(left_over(m[0], bs) == bs);
    assert(picked(m[1], bs) == bs);
    assert(score_after(m[0].score, bs) == m[0].score);
    assert(score_after(m[1].score, bs) == m[1].score);
    assert(pickup_events(0, bs).len() == 0);
    assert(pickup_events(1, bs).len() == 0);
    match kill {
        Some((k, v)) => {
            let respawn = choose|respawn: Vec2|
                {
                    &&& #[trigger] killed(ps, m, k as int, v as int, respawn)
                    &&& -cfg.half_width <= respawn.x < cfg.half_width
                    &&& respawn.y == cfg.ground_y
                };
            assert(kill_of(ps[0], ps[1]) == kill);
            assert(k < 2 && v < 2 && k != v);
        },
        None => {},
    }
}

} // verus!
