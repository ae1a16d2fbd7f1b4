use std::sync::{Arc, Mutex};
use translate::audio::backend::{
    AudioBackend, AudioError, DeviceId, DeviceInfo, DeviceWatchHandle, Direction, InputStream,
    OutputStream, StreamCfg,
};
use translate::audio::ring::{AudioConsumer, AudioProducer};
use translate::devices::classify::{classify, DeviceUse};
use translate::devices::manager::DeviceManager;
use translate::devices::snapshot::{diff_snapshots, DeviceSnapshot};
use translate::devices::watch::{project_lost, DeviceEvent};

fn dev(name: &str, virt: bool) -> DeviceInfo {
    DeviceInfo {
        id: DeviceId(name.into()),
        name: name.into(),
        is_default: false,
        is_virtual: virt,
    }
}

fn d(name: &str, def: bool, virt: bool) -> DeviceInfo {
    DeviceInfo {
        id: DeviceId(name.into()),
        name: name.into(),
        is_default: def,
        is_virtual: virt,
    }
}

fn snap(ins: Vec<DeviceInfo>, outs: Vec<DeviceInfo>) -> DeviceSnapshot {
    DeviceSnapshot {
        inputs: ins,
        outputs: outs,
    }
}

fn sorted(mut v: Vec<DeviceEvent>) -> Vec<DeviceEvent> {
    v.sort_by_key(|e| format!("{e:?}"));
    v
}

struct MockBackend {
    inputs: Arc<Mutex<Vec<DeviceInfo>>>,
    outputs: Arc<Mutex<Vec<DeviceInfo>>>,
}

impl AudioBackend for MockBackend {
    fn list_inputs(&self) -> Result<Vec<DeviceInfo>, AudioError> {
        Ok(self.inputs.lock().unwrap().clone())
    }

    fn list_outputs(&self) -> Result<Vec<DeviceInfo>, AudioError> {
        Ok(self.outputs.lock().unwrap().clone())
    }

    fn open_input(
        &self,
        _: &DeviceId,
        _: StreamCfg,
    ) -> Result<(Box<dyn InputStream>, AudioConsumer), AudioError> {
        Err(AudioError::OpenStream("mock 不打开输入流".into()))
    }

    fn open_output(
        &self,
        _: &DeviceId,
        _: StreamCfg,
    ) -> Result<(Box<dyn OutputStream>, AudioProducer), AudioError> {
        Err(AudioError::OpenStream("mock 不打开输出流".into()))
    }

    fn watch_devices(&self) -> Result<DeviceWatchHandle, AudioError> {
        let (_tx, rx) = std::sync::mpsc::channel();
        Ok(DeviceWatchHandle::new(rx))
    }
}

#[test]
fn classify_uses_direction_plus_virtual_name() {
    assert_eq!(
        classify(
            &dev("CABLE Input (VB-Audio Virtual Cable)", true),
            Direction::Output
        ),
        DeviceUse::VirtualMic
    );
    assert_eq!(
        classify(&dev("BlackHole 2ch", true), Direction::Input),
        DeviceUse::VirtualSpeaker
    );
    assert_eq!(
        classify(&dev("MacBook Pro Microphone", false), Direction::Input),
        DeviceUse::Physical
    );
}

#[test]
fn refresh_returns_new_immutable_snapshot() {
    let inputs = Arc::new(Mutex::new(vec![d("MicX", true, false)]));
    let outputs = Arc::new(Mutex::new(vec![d("BlackHole 2ch", false, true)]));
    let backend = MockBackend {
        inputs: inputs.clone(),
        outputs: outputs.clone(),
    };
    let mut mgr = DeviceManager::new(backend).unwrap();
    let old = mgr.snapshot().clone();
    assert_eq!(old.inputs.len(), 1);

    inputs.lock().unwrap().push(d("BlackHole 16ch", false, true));
    let new = mgr.refresh().unwrap();
    assert_ne!(old, new, "refresh 必须产生新快照，未原地 mutate");

    let events = diff_snapshots(&old, &new);
    assert!(events.iter().any(|e| matches!(
        e,
        DeviceEvent::Added {
            dir: Direction::Input,
            ..
        }
    )));
    assert_eq!(
        classify(&new.inputs[1], Direction::Input),
        DeviceUse::VirtualSpeaker
    );
}

#[test]
fn diff_added_and_removed_set() {
    let prev = snap(vec![d("A", false, false), d("B", false, false)], vec![]);
    let next = snap(vec![d("B", false, false), d("C", false, false)], vec![]);
    let got = sorted(diff_snapshots(&prev, &next));
    assert_eq!(
        got,
        sorted(vec![
            DeviceEvent::Added {
                id: DeviceId("C".into()),
                dir: Direction::Input
            },
            DeviceEvent::Removed {
                id: DeviceId("A".into()),
                dir: Direction::Input
            },
        ])
    );
}

#[test]
fn diff_default_change_only() {
    let prev = snap(vec![d("A", true, false), d("B", false, false)], vec![]);
    let next = snap(vec![d("A", false, false), d("B", true, false)], vec![]);
    assert_eq!(
        diff_snapshots(&prev, &next),
        vec![DeviceEvent::DefaultChanged {
            dir: Direction::Input,
            new: DeviceId("B".into())
        }]
    );
}

#[test]
fn project_lost_only_for_in_use() {
    let next = snap(vec![d("SpkY", false, false)], vec![]);
    let in_use = vec![
        (DeviceId("MicX".into()), Direction::Input),
        (DeviceId("SpkY".into()), Direction::Input),
    ];
    assert_eq!(
        project_lost(&in_use, &next),
        vec![DeviceEvent::DeviceLost {
            id: DeviceId("MicX".into()),
            dir: Direction::Input
        }]
    );
    let still = vec![(DeviceId("SpkY".into()), Direction::Input)];
    assert!(project_lost(&still, &next).is_empty());
}
