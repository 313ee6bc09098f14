//! Abstract peripheral backends: reusable pieces that concrete
//! memory-mapped peripherals compose (a compare-match timer and the
//! interrupt objects it raises).

pub mod compare_match_timer;
pub mod interrupt;

pub use compare_match_timer::CompareMatchTimer;
pub use compare_match_timer::FunName;
pub use interrupt::Interrupt;
pub use interrupt::InterruptError;
pub use interrupt::InterruptHandler;
