use tui_synth::{AudioEffect, EffectChain};

/// Multiplies by a factor and then adds the number of samples seen before.
struct Counter {
    factor: i64,
    seen: i64,
}

impl AudioEffect for Counter {
    type Sample = i64;

    fn output(&self, sample: i64) -> i64 {
        sample * self.factor + self.seen
    }

    fn after(&self, _sample: i64) -> Counter {
        Counter { factor: self.factor, seen: self.seen + 1 }
    }

    fn cleared(&self) -> Counter {
        Counter { factor: self.factor, seen: 0 }
    }

    fn process(&mut self, sample: i64) -> i64 {
        let out = sample * self.factor + self.seen;
        self.seen += 1;
        out
    }

    fn reset(&mut self) {
        self.seen = 0;
    }

    fn name(&self) -> &'static str {
        "Counter"
    }
}

#[test]
fn empty_chain_is_identity() {
    let mut c: EffectChain<Counter> = EffectChain::new();
    assert!(c.is_empty());
    for s in [-5i64, 0, 1, 123456, i64::MIN, i64::MAX] {
        assert_eq!(c.process(s), s);
    }
    let mut d: EffectChain<Counter> = EffectChain::default();
    assert_eq!(d.process(7), 7);
}

#[test]
fn chain_folds_in_order() {
    let mut c = EffectChain::new();
    c.effects.push(Counter { factor: 2, seen: 0 });
    c.effects.push(Counter { factor: 10, seen: 0 });
    assert!(!c.is_empty());
    assert_eq!(c.process(3), 60);
    // Second sample: (3 * 2 + 1) * 10 + 1.
    assert_eq!(c.process(3), 71);
    assert_eq!(c.effects[0].name(), "Counter");
    assert_eq!(c.effects[0].seen, 2);
    assert_eq!(c.effects[1].seen, 2);
}

#[test]
fn reset_all_keeps_every_effect() {
    let mut c = EffectChain::new();
    c.effects.push(Counter { factor: 1, seen: 0 });
    c.effects.push(Counter { factor: 1, seen: 0 });
    c.process(0);
    c.process(0);
    c.reset_all();
    assert_eq!(c.effects.len(), 2);
    assert!(c.effects.iter().all(|e| e.seen == 0));
    assert_eq!(c.process(5), 5);
}
