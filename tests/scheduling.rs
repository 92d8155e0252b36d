use kernel::executor::Executor;
use kernel::interrupts::{BootStage, InterruptIndex, PIC_1_OFFSET, PIC_2_OFFSET};
use kernel::task::{Task, TaskId};
use kernel::vga_buffer::{Color, ColorCode};

#[test]
fn all_tasks_finish_and_are_not_polled_after_completion() {
    let budgets: Vec<u32> = vec![1, 3, 2, 5, 1];
    let mut executor: Executor<u32> = Executor::new();
    let mut ids = Vec::new();
    for &b in &budgets {
        ids.push(executor.spawn(b).expect("fresh id"));
    }
    assert_eq!(ids, (0..budgets.len() as u64).map(TaskId).collect::<Vec<_>>());
    let mut polls = vec![0u32; budgets.len()];
    let mut completed = vec![false; budgets.len()];
    while let Some(mut task) = executor.next_task() {
        let i = task.id.0 as usize;
        assert!(!completed[i], "task {} polled after completion", i);
        polls[i] += 1;
        task.future -= 1;
        if task.future == 0 {
            completed[i] = true;
            // a stale wake after completion must be ignored
            executor.wake(task.id);
        } else {
            executor.wake(task.id);
            assert!(executor.can_park(task.id));
            executor.park(task);
        }
    }
    assert_eq!(polls, budgets);
    assert!(completed.iter().all(|&c| c));
    assert!(!executor.has_tasks());
}

#[test]
fn pending_task_waits_for_a_wake() {
    let mut executor: Executor<&str> = Executor::new();
    let id = executor.spawn("keyboard").expect("fresh id");
    let task = executor.next_task().expect("spawned task is ready");
    assert_eq!(task.id, id);
    assert!(executor.can_park(task.id));
    assert!(!executor.can_park(TaskId(1)));
    executor.park(task);
    assert!(!executor.can_park(id));
    assert!(executor.next_task().is_none());
    assert!(executor.has_tasks());
    executor.wake(id);
    let task = executor.next_task().expect("woken task is ready");
    assert_eq!(task.future, "keyboard");
}

#[test]
fn task_new_keeps_its_parts() {
    let t = Task::new(TaskId(7), 'q');
    assert_eq!(t.id, TaskId(7));
    assert_eq!(t.future, 'q');
}

#[test]
fn interrupt_vectors_follow_the_exceptions() {
    assert_eq!(PIC_1_OFFSET, 32);
    assert_eq!(PIC_2_OFFSET, 40);
    assert_eq!(InterruptIndex::Timer.as_u8(), 32);
    assert_eq!(InterruptIndex::Keyboard.as_u8(), 33);
    assert_eq!(InterruptIndex::Keyboard.as_usize(), 33);
}

#[test]
fn boot_sequence_is_one_way() {
    assert_eq!(BootStage::Unconfigured.advance(), Some(BootStage::TablesLoaded));
    assert_eq!(BootStage::TablesLoaded.advance(), Some(BootStage::Active));
    assert_eq!(BootStage::Active.advance(), None);
}

#[test]
fn color_code_packs_background_high() {
    let code = ColorCode::new(Color::White, Color::Black);
    assert_eq!(code.to_u8(), 0x0F);
    assert_eq!(code.get_foreground(), Color::White);
    assert_eq!(code.get_background(), Color::Black);
    assert_eq!(ColorCode::new(Color::Blue, Color::White).to_u8(), 0xF1);
    assert_eq!(ColorCode::new(Color::Yellow, Color::Red).to_u8(), 0x4E);
    assert_eq!(Color::Pink.as_u8(), 13);
}
