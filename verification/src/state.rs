//! Data model of a race: configuration, car records, the economy ledger and
//! the aggregate game state.

use vstd::prelude::*;

verus! {

/// One of the purchasable economy items.
#[derive(Clone, Copy, Debug, PartialEq, Eq, Hash, Structural)]
pub enum ActionType {
    Accelerate,
    Shell,
    SuperShell,
    Banana,
    Shield,
}

impl ActionType {
    /// The wire name of this action type.
    pub open spec fn spec_label(self) -> Seq<char> {
        match self {
            ActionType::Accelerate => "accelerate"@,
            ActionType::Shell => "shell"@,
            ActionType::SuperShell => "super_shell"@,
            ActionType::Banana => "banana"@,
            ActionType::Shield => "shield"@,
        }
    }

    pub fn label(&self) -> (s: String)
        ensures
            s@ == self.spec_label(),
    {
        match self {
            ActionType::Accelerate => "accelerate".to_owned(),
            ActionType::Shell => "shell".to_owned(),
            ActionType::SuperShell => "super_shell".to_owned(),
            ActionType::Banana => "banana".to_owned(),
            ActionType::Shield => "shield".to_owned(),
        }
    }
}

/// Lifecycle of a race: fewer cars than required registered, a full roster
/// racing, or finished.
#[derive(Clone, Copy, Debug, PartialEq, Eq, Structural)]
pub enum State {
    Waiting,
    Active,
    Done,
}

/// Immutable per-race configuration: required player count, finish distance,
/// starting balance, post-effect speed cap, and the per-action pricing
/// parameters (target price, per-turn decay, target sell rate per turn).
#[derive(Clone, Copy, Debug, PartialEq, Eq, Structural)]
pub struct Config {
    /// Number of players required in each round.
    pub num_players: u64,

    /// Speed a car is clamped down to by a successful shelling.
    pub post_sell_speed: u64,

    /// Initial balance for each car.
    pub init_balance: u64,

    /// Target distance.
    pub target_distance: u64,

    pub banana_speed_modifier: u64,

    // Shell config
    pub shell_target_price: u64,
    pub shell_per_turn_decrease: u64,
    pub shell_sell_per_turn: u64,

    // Accelerate config
    pub accel_target_price: u64,
    pub accel_per_turn_decrease: u64,
    pub accel_sell_per_turn: u64,

    // Super shell config
    pub ss_target_price: u64,
    pub ss_per_turn_decrease: u64,
    pub ss_sell_per_turn: u64,

    // Banana config
    pub banana_target_price: u64,
    pub banana_per_turn_decrease: u64,
    pub banana_sell_per_turn: u64,

    // Shield config
    pub shield_target_price: u64,
    pub shield_per_turn_decrease: u64,
    pub shield_sell_per_turn: u64,
}

impl Config {
    /// The stock configuration: three players, a speed cap of one after a
    /// shelling, and a starting balance of 17500.
    pub open spec fn spec_default() -> Config {
        Config {
            num_players: 3,
            post_sell_speed: 1,
            init_balance: 17500,
            target_distance: 1000,
            banana_speed_modifier: 0,
            shell_target_price: 0,
            shell_per_turn_decrease: 0,
            shell_sell_per_turn: 0,
            accel_target_price: 0,
            accel_per_turn_decrease: 0,
            accel_sell_per_turn: 0,
            ss_target_price: 0,
            ss_per_turn_decrease: 0,
            ss_sell_per_turn: 0,
            banana_target_price: 0,
            banana_per_turn_decrease: 0,
            banana_sell_per_turn: 0,
            shield_target_price: 0,
            shield_per_turn_decrease: 0,
            shield_sell_per_turn: 0,
        }
    }

    pub fn default() -> (c: Config)
        ensures
            c == Config::spec_default(),
    {
        Config {
            num_players: 3,
            post_sell_speed: 1,
            init_balance: 17500,
            target_distance: 1000,
            banana_speed_modifier: 0,
            shell_target_price: 0,
            shell_per_turn_decrease: 0,
            shell_sell_per_turn: 0,
            accel_target_price: 0,
            accel_per_turn_decrease: 0,
            accel_sell_per_turn: 0,
            ss_target_price: 0,
            ss_per_turn_decrease: 0,
            ss_sell_per_turn: 0,
            banana_target_price: 0,
            banana_per_turn_decrease: 0,
            banana_sell_per_turn: 0,
            shield_target_price: 0,
            shield_per_turn_decrease: 0,
            shield_sell_per_turn: 0,
        }
    }
}

/// The mutable record of one registered car: its identity, its remaining
/// balance, its track position `y`, its speed, and how many turns of shield
/// protection it still holds.
#[derive(Clone, Debug, PartialEq, Eq)]
pub struct CarData {
    pub balance: u64,
    pub addr: String,
    pub y: u64,
    pub speed: u64,
    pub shield: u64,
}

impl CarData {
    /// A freshly registered car: the given identity and starting balance,
    /// and zero position, speed and shield.
    pub fn at_start(addr: String, balance: u64) -> (c: CarData)
        ensures
            c.addr == addr,
            c.balance == balance,
            c.y == 0,
            c.speed == 0,
            c.shield == 0,
    {
        CarData { balance, addr, y: 0, speed: 0, shield: 0 }
    }

    /// An equal copy of this record.
    pub fn duplicate(&self) -> (c: CarData)
        ensures
            c == *self,
    {
        CarData {
            balance: self.balance,
            addr: self.addr.clone(),
            y: self.y,
            speed: self.speed,
            shield: self.shield,
        }
    }

    /// The all-zero record with an empty identity.
    pub fn empty() -> (c: CarData)
        ensures
            c.addr@ == Seq::<char>::empty(),
            c.balance == 0,
            c.y == 0,
            c.speed == 0,
            c.shield == 0,
    {
        CarData { balance: 0, addr: String::new(), y: 0, speed: 0, shield: 0 }
    }
}

/// The economy ledger: cumulative units sold per action type since race
/// start.
#[derive(Clone, Copy, Debug, PartialEq, Eq, Structural)]
pub struct ActionSold {
    pub accelerate: u64,
    pub shell: u64,
    pub super_shell: u64,
    pub banana: u64,
    pub shield: u64,
}

impl ActionSold {
    /// The ledger with every counter at zero.
    pub open spec fn spec_zero() -> ActionSold {
        ActionSold { accelerate: 0, shell: 0, super_shell: 0, banana: 0, shield: 0 }
    }

    pub fn zero() -> (s: ActionSold)
        ensures
            s == ActionSold::spec_zero(),
    {
        ActionSold { accelerate: 0, shell: 0, super_shell: 0, banana: 0, shield: 0 }
    }

    /// Units of `action` sold so far.
    pub open spec fn spec_get(self, action: ActionType) -> u64 {
        match action {
            ActionType::Accelerate => self.accelerate,
            ActionType::Shell => self.shell,
            ActionType::SuperShell => self.super_shell,
            ActionType::Banana => self.banana,
            ActionType::Shield => self.shield,
        }
    }

    /// The ledger after `amount` more units of `action` were sold.
    pub open spec fn spec_add(self, action: ActionType, amount: u64) -> ActionSold {
        match action {
            ActionType::Accelerate => ActionSold {
                accelerate: self.accelerate.saturating_add(amount),
                ..self
            },
            ActionType::Shell => ActionSold { shell: self.shell.saturating_add(amount), ..self },
            ActionType::SuperShell => ActionSold {
                super_shell: self.super_shell.saturating_add(amount),
                ..self
            },
            ActionType::Banana => ActionSold { banana: self.banana.saturating_add(amount), ..self },
            ActionType::Shield => ActionSold { shield: self.shield.saturating_add(amount), ..self },
        }
    }

    pub fn get(&self, action: ActionType) -> (n: u64)
        ensures
            n == self.spec_get(action),
    {
        match action {
            ActionType::Accelerate => self.accelerate,
            ActionType::Shell => self.shell,
            ActionType::SuperShell => self.super_shell,
            ActionType::Banana => self.banana,
            ActionType::Shield => self.shield,
        }
    }

    /// Record `amount` more units of `action` as sold, saturating at the
    /// counter's maximum.
    pub fn add(&mut self, action: ActionType, amount: u64)
        ensures
            *final(self) == old(self).spec_add(action, amount),
    {
        match action {
            ActionType::Accelerate => {
                self.accelerate = self.accelerate.saturating_add(amount);
            },
            ActionType::Shell => {
                self.shell = self.shell.saturating_add(amount);
            },
            ActionType::SuperShell => {
                self.super_shell = self.super_shell.saturating_add(amount);
            },
            ActionType::Banana => {
                self.banana = self.banana.saturating_add(amount);
            },
            ActionType::Shield => {
                self.shield = self.shield.saturating_add(amount);
            },
        }
    }
}

/// The whole mutable state of one race: the registry of cars in registration
/// (and turn) order, the global turn counter, the lifecycle state, the
/// configuration, the live hazards and the economy ledger.
#[derive(Clone, Debug, PartialEq, Eq)]
pub struct GameState {
    /// Registered cars, in registration order; the order is also the
    /// round-robin turn order.
    pub all_cars: Vec<CarData>,

    pub turns: u64,

    /// The current state of the game: pre-start, started, done.
    pub state: State,

    // Game config
    pub config: Config,

    /// The bananas in play, tracked by their y position, kept strictly
    /// increasing.
    pub bananas: Vec<u64>,

    /// Units sold so far, per action type.
    pub sold: ActionSold,
}

impl GameState {
    /// Well-formedness: hazards are kept strictly increasing by position (so
    /// no two hazards share a spot), and registered identities are distinct.
    pub open spec fn wf(self) -> bool {
        &&& forall|i: int, j: int|
            0 <= i < j < self.bananas@.len() ==> self.bananas@[i] < self.bananas@[j]
        &&& forall|i: int, j: int|
            0 <= i < j < self.all_cars@.len()
                ==> self.all_cars@[i].addr@ != self.all_cars@[j].addr@
    }

    /// A freshly instantiated (or reset) race.
    pub open spec fn is_default(s: GameState) -> bool {
        &&& s.all_cars@.len() == 0
        &&& s.turns == 0
        &&& s.state == State::Waiting
        &&& s.config == Config::spec_default()
        &&& s.bananas@.len() == 0
        &&& s.sold == ActionSold::spec_zero()
    }

    pub fn default() -> (s: GameState)
        ensures
            GameState::is_default(s),
            s.wf(),
    {
        GameState {
            all_cars: Vec::new(),
            turns: 0,
            state: State::Waiting,
            config: Config::default(),
            bananas: Vec::new(),
            sold: ActionSold::zero(),
        }
    }

    /// Whether this state is well-formed: the runtime twin of
    /// [`GameState::wf`], for states that arrive from outside — such as a
    /// snapshot deserialized from storage — before the engine touches them.
    pub fn check_wf(&self) -> (b: bool)
        ensures
            b == self.wf(),
    {
        let n = self.bananas.len();
        let mut i: usize = 0;
        while i + 1 < n
            invariant
                n == self.bananas@.len(),
                i == 0 || i < n,
                forall|x: int, y: int| 0 <= x < y <= i ==> self.bananas@[x] < self.bananas@[y],
            decreases n - i,
        {
            if self.bananas[i] >= self.bananas[i + 1] {
                return false;
            }
            i = i + 1;
        }

        let m = self.all_cars.len();
        let mut a: usize = 0;
        while a < m
            invariant
                m == self.all_cars@.len(),
                a <= m,
                forall|x: int, y: int|
                    0 <= x < y < m && x < a ==> self.all_cars@[x].addr@ != self.all_cars@[y].addr@,
            decreases m - a,
        {
            let mut b: usize = a + 1;
            while b < m
                invariant
                    m == self.all_cars@.len(),
                    a < b,
                    b <= m,
                    a < m,
                    forall|y: int|
                        a < y < b ==> self.all_cars@[a as int].addr@ != self.all_cars@[y].addr@,
                decreases m - b,
            {
                if self.all_cars[a].addr == self.all_cars[b].addr {
                    return false;
                }
                b = b + 1;
            }
            a = a + 1;
        }
        true
    }

    /// A small ready-made race for exercising the engine: three cars at the
    /// start line, three turns already elapsed, the stock configuration.
    pub fn for_test() -> (s: GameState)
        ensures
            s.wf(),
            s.all_cars@.len() == 3,
            s.all_cars@[0].addr@ == "addr1"@,
            s.all_cars@[1].addr@ == "addr2"@,
            s.all_cars@[2].addr@ == "addr3"@,
            forall|i: int|
                0 <= i < 3 ==> {
                    &&& (#[trigger] s.all_cars@[i]).balance == Config::spec_default().init_balance
                    &&& s.all_cars@[i].y == 0
                    &&& s.all_cars@[i].speed == 0
                    &&& s.all_cars@[i].shield == 0
                },
            s.turns == 3,
            s.state == State::Active,
            s.config == Config::spec_default(),
            s.bananas@.len() == 0,
            s.sold == ActionSold::spec_zero(),
    {
        let config = Config::default();
        let mut all_cars: Vec<CarData> = Vec::new();
        all_cars.push(CarData::at_start("addr1".to_owned(), config.init_balance));
        all_cars.push(CarData::at_start("addr2".to_owned(), config.init_balance));
        all_cars.push(CarData::at_start("addr3".to_owned(), config.init_balance));
        proof {
            reveal_strlit("addr1");
            reveal_strlit("addr2");
            reveal_strlit("addr3");
            assert("addr1"@[4] == '1' && "addr2"@[4] == '2' && "addr3"@[4] == '3');
            assert("addr1"@ != "addr2"@ && "addr1"@ != "addr3"@ && "addr2"@ != "addr3"@);
        }
        GameState {
            all_cars,
            turns: 3,
            state: State::Active,
            config,
            bananas: Vec::new(),
            sold: ActionSold::zero(),
        }
    }

    /// Replace the roster with freshly initialized cars, one per given
    /// identity, each starting with the configured balance and zero
    /// position, speed and shield.
    pub fn register(&mut self, car_addrs: &Vec<String>)
        requires
            forall|i: int, j: int|
                0 <= i < j < car_addrs@.len() ==> car_addrs@[i]@ != car_addrs@[j]@,
        ensures
            final(self).all_cars@.len() == car_addrs@.len(),
            forall|i: int|
                0 <= i < car_addrs@.len() ==> {
                    &&& (#[trigger] final(self).all_cars@[i]).addr == car_addrs@[i]
                    &&& final(self).all_cars@[i].balance == old(self).config.init_balance
                    &&& final(self).all_cars@[i].y == 0
                    &&& final(self).all_cars@[i].speed == 0
                    &&& final(self).all_cars@[i].shield == 0
                },
            final(self).turns == old(self).turns,
            final(self).state == old(self).state,
            final(self).config == old(self).config,
            final(self).bananas == old(self).bananas,
            final(self).sold == old(self).sold,
    {
        let n = car_addrs.len();
        let mut cars: Vec<CarData> = Vec::new();
        let mut i: usize = 0;
        while i < n
            invariant
                i <= n,
                n == car_addrs@.len(),
                cars@.len() == i,
                forall|k: int|
                    0 <= k < i ==> {
                        &&& (#[trigger] cars@[k]).addr == car_addrs@[k]
                        &&& cars@[k].balance == old(self).config.init_balance
                        &&& cars@[k].y == 0
                        &&& cars@[k].speed == 0
                        &&& cars@[k].shield == 0
                    },
            decreases n - i,
        {
            let addr = car_addrs[i].clone();
            cars.push(CarData::at_start(addr, self.config.init_balance));
            i = i + 1;
        }
        self.all_cars = cars;
    }

    /// How many cars are registered.
    pub fn total_cars(&self) -> (n: u64)
        ensures
            n == self.all_cars@.len(),
    {
        self.all_cars.len() as u64
    }

    /// Whether the roster is full, so that turns may advance.
    pub fn can_play(&self) -> (b: bool)
        ensures
            b == (self.all_cars@.len() == self.config.num_players),
    {
        self.all_cars.len() as u64 == self.config.num_players
    }
}

} // verus!
