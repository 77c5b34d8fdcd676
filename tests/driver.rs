use event_store::{after_publish, after_save, AppendError, AppendStep, EventDriver, Id};

struct FailingStore {
    error: String,
}

impl FailingStore {
    fn save(&mut self, _id: Id) -> Result<Id, String> {
        Err(self.error.clone())
    }
}

struct OkStore {
    saved: Vec<Id>,
}

impl OkStore {
    fn save(&mut self, id: Id) -> Result<Id, String> {
        self.saved.push(id);
        Ok(id)
    }
}

struct SpyBus {
    published: Vec<Id>,
    fail: bool,
}

impl SpyBus {
    fn publish(&mut self, id: Id) -> Result<(), String> {
        self.published.push(id);
        if self.fail {
            Err("bus down".to_string())
        } else {
            Ok(())
        }
    }
}

#[test]
fn save_failure_never_publishes_and_keeps_the_error() {
    let mut driver = EventDriver::new(FailingStore { error: "disk full".to_string() }, SpyBus {
        published: vec![],
        fail: false,
    });
    let id = Id::from_u128(1);
    let saved = driver.store_mut().save(id);
    let outcome = match after_save(saved) {
        AppendStep::Publish(id) => after_publish(id, driver.bus_mut().publish(id)),
        AppendStep::Done(r) => r,
    };
    assert_eq!(outcome, Err(AppendError::Save("disk full".to_string())));
    assert!(driver.bus_mut().published.is_empty());
}

#[test]
fn saved_then_published() {
    let mut driver = EventDriver::new(OkStore { saved: vec![] }, SpyBus {
        published: vec![],
        fail: false,
    });
    let id = Id::from_u128(42);
    let saved = driver.store_mut().save(id);
    let outcome = match after_save(saved) {
        AppendStep::Publish(id) => after_publish(id, driver.bus_mut().publish(id)),
        AppendStep::Done(r) => r,
    };
    assert_eq!(outcome, Ok(id));
    assert_eq!(driver.store_mut().saved, vec![id]);
    assert_eq!(driver.bus_mut().published, vec![id]);
}

#[test]
fn publish_failure_is_told_apart_from_save_failure() {
    let mut driver = EventDriver::new(OkStore { saved: vec![] }, SpyBus {
        published: vec![],
        fail: true,
    });
    let id = Id::from_u128(9);
    let saved = driver.store_mut().save(id);
    let outcome = match after_save(saved) {
        AppendStep::Publish(id) => after_publish(id, driver.bus_mut().publish(id)),
        AppendStep::Done(r) => r,
    };
    assert_eq!(outcome, Err(AppendError::Publish("bus down".to_string())));
    assert_eq!(driver.store_mut().saved, vec![id]);
}

#[test]
fn after_save_steps() {
    let id = Id::from_u128(3);
    assert_eq!(after_save::<u8>(Ok(id)), AppendStep::Publish(id));
    assert_eq!(after_save::<u8>(Err(4)), AppendStep::Done(Err(AppendError::Save(4))));
    assert_eq!(after_publish::<u8>(id, Ok(())), Ok(id));
    assert_eq!(after_publish::<u8>(id, Err(5)), Err(AppendError::Publish(5)));
}
