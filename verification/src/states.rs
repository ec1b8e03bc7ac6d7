use vstd::prelude::*;

verus! {

/// Remembered window dimensions. The host application can register one of
/// these at startup; nothing in the transfer core reads it back.
pub struct AppData {
    x_len: u32,
    y_len: u32,
}

impl AppData {
    /// The stored width and height.
    pub closed spec fn dims(self) -> (u32, u32) {
        (self.x_len, self.y_len)
    }

    /// Overwrites the stored dimensions.
    pub fn set_app_size(&mut self, new_x: u32, new_y: u32)
        ensures
            final(self).dims() == (new_x, new_y),
    {
        self.x_len = new_x;
        self.y_len = new_y;
    }

    pub fn app_data(new_x: u32, new_y: u32) -> (data: Self)
        ensures
            data.dims() == (new_x, new_y),
    {
        AppData { x_len: new_x, y_len: new_y }
    }
}

} // verus!
